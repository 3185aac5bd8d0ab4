//! rv32im to SVM translator
//!
//! This module translates RISC-V rv32im instructions to SVM bytecode.
//!
//! Memory layout:
//! - 0x0000 - 0x7FFF: Program data/heap
//! - 0x8000 - 0x807F: RISC-V register file (32 * 4 bytes = 128 bytes)
//! - 0x8080+: Stack (grows downward)
//!
//! The compiler uses a memory-based register file approach where all RISC-V
//! registers are stored in memory. SVM registers are used as temporaries.

use vstd::prelude::*;
use crate::riscv::decoder::{decode, decode_spec};
use crate::riscv::instruction::{Instruction, Register};
use crate::svm::bytecode::{opcodes, MemorySize, SvmInstruction, SvmProgram, SvmRegister};
use crate::text::{hex_fixed_text, push_hex_fixed};
use super::templates::{
    address_code, branch_code, code_upto, compilable, config_fits, compile_outcome, constant_code,
    direct_jumps, dispatch_table, div_code, epilogue, first_unknown, i_type_code, indirect_jumps,
    inst_code, is_direct_jump, jal_code, jalr_code, jump_target_index, load_code, load_extension,
    load_mem_code, mulh_code, position_map, prologue, r_type_code, reg_addr, rem_code, resolve,
    resolve_indirect, return_address, byte_address, return_sites, lemma_code_upto, lemma_jumps_in_code,
    lemma_first_unknown_stays, lemma_resolve_stops, lemma_resolve_next, lemma_resolve_len,
    lemma_resolve_indirect_stops, lemma_resolve_indirect_next, lemma_dispatch_stops, lemma_dispatch_next, shift_code, shift_core,
    shift_imm_code, sign_extend32, slt_code, slti_code, start_of, store_code, store_mem_code,
    zero_extend32, Compiled,
};

verus! {

/// Compiler error
#[derive(Debug)]
pub enum CompilerError {
    UnsupportedInstruction(String),
    InvalidBranchTarget(i32),
    ProgramTooLarge(usize),
}

/// Compiler result type
pub type CompilerResult<T> = Result<T, CompilerError>;

/// Compiler configuration
#[derive(Debug, Clone)]
pub struct CompilerConfig {
    /// Base address for RISC-V register file in SVM memory
    pub regfile_base: u64,
    /// Base address for RISC-V memory in SVM memory
    pub memory_base: u64,
    /// Stack base address
    pub stack_base: u64,
    /// Initial PC value (byte address in RISC-V)
    pub initial_pc: u32,
}

/// The default configuration: register file at `0x8000`, memory at 0, stack base
/// at `0x10000` (64KB), initial PC 0.
pub open spec fn default_config() -> CompilerConfig {
    CompilerConfig { regfile_base: 0x8000, memory_base: 0x0000, stack_base: 0x10000, initial_pc: 0 }
}

impl Default for CompilerConfig {
    fn default() -> (c: Self)
        ensures
            c == default_config(),
    {
        CompilerConfig {
            regfile_base: 0x8000,
            memory_base: 0x0000,
            stack_base: 0x10000,  // 64KB
            initial_pc: 0,
        }
    }
}

/// `r` is the outcome `o`: the program, the unknown word written as `0x` and eight
/// hexadecimal digits, or the unresolvable target.
pub open spec fn compiled_as(r: CompilerResult<SvmProgram>, o: Compiled) -> bool {
    match o {
        Compiled::Program(p) => match r {
            Ok(prog) => prog.instructions@ == p,
            Err(_) => false,
        },
        Compiled::Unsupported(w) => match r {
            Err(CompilerError::UnsupportedInstruction(m)) => m@ == "0x"@ + hex_fixed_text(w as nat, 8),
            _ => false,
        },
        Compiled::BadTarget(t) => match r {
            Err(CompilerError::InvalidBranchTarget(u)) => u == t,
            _ => false,
        },
    }
}

/// rv32im to SVM compiler
pub struct Compiler {
    config: CompilerConfig,
    /// Output SVM program
    output: SvmProgram,
    /// Position of each RISC-V instruction's code in the output, by instruction index
    pc_map: Vec<usize>,
    /// RISC-V instructions being compiled
    rv_instructions: Vec<Instruction>,
    /// Current RISC-V instruction index
    rv_pc: usize,
    /// Pending branch fixups: (svm_index, rv_target_index)
    branch_fixups: Vec<(usize, usize)>,
    /// Return sites: RV instruction indices that can be return targets (after JAL)
    return_sites: Vec<usize>,
    /// JALR dispatch fixups: jump instructions that need the dispatch table as target
    jalr_fixups: Vec<usize>,
}

impl Compiler {
    /// The configuration the compiler compiles with.
    pub closed spec fn configuration(&self) -> CompilerConfig {
        self.config
    }

    /// Everything but the output is as in `old`.
    spec fn only_output_changed(&self, old: &Compiler) -> bool {
        &&& self.config == old.config
        &&& self.pc_map == old.pc_map
        &&& self.rv_pc == old.rv_pc
        &&& self.branch_fixups == old.branch_fixups
        &&& self.return_sites == old.return_sites
        &&& self.jalr_fixups == old.jalr_fixups
    }

    /// The output is `old`'s with `code` appended, and nothing else changed.
    spec fn appended(&self, old: &Compiler, code: Seq<SvmInstruction>) -> bool {
        &&& self.only_output_changed(old)
        &&& self.output.instructions@ == old.output.instructions@ + code
    }

    /// Create a new compiler with default configuration
    pub fn new() -> (c: Self)
        ensures
            c.configuration() == default_config(),
    {
        Self::with_config(CompilerConfig::default())
    }

    /// Create a new compiler with given configuration
    pub fn with_config(config: CompilerConfig) -> (c: Self)
        ensures
            c.configuration() == config,
    {
        Compiler {
            config,
            output: SvmProgram::new(),
            pc_map: Vec::new(),
            rv_instructions: Vec::new(),
            rv_pc: 0,
            branch_fixups: Vec::new(),
            return_sites: Vec::new(),
            jalr_fixups: Vec::new(),
        }
    }

    fn emit(&mut self, inst: SvmInstruction)
        ensures
            final(self).appended(old(self), seq![inst]),
    {
        self.output.push(inst);
        assert(self.output.instructions@ =~= old(self).output.instructions@ + seq![inst]);
    }

    fn emit_prologue(&mut self)
        requires
            old(self).config.regfile_base <= u64::MAX - 124,
        ensures
            final(self).appended(old(self), prologue(old(self).config)),
    {
        // Set up SVM r10 (stack pointer) - it's read-only so we use r9 as our stack pointer
        // Initialize r9 to point to top of stack
        let stack_top = self.config.stack_base as i32;
        self.emit(SvmInstruction::mov64_imm(SvmRegister::R9, stack_top));
        // Initialize RISC-V x2 (sp) in register file
        let sp_addr = self.regfile_addr(Register::SP);
        self.emit(SvmInstruction::mov64_imm(SvmRegister::R1, sp_addr as i32));
        self.emit(SvmInstruction::st(MemorySize::Word, SvmRegister::R1, 0, stack_top));
        assert(self.output.instructions@ =~= old(self).output.instructions@ + prologue(self.config));
    }

    fn emit_epilogue(&mut self)
        requires
            old(self).config.regfile_base <= u64::MAX - 124,
        ensures
            final(self).appended(old(self), epilogue(old(self).config)),
    {
        // Load return value from a0 (x10) to r0
        self.load_rv_reg(SvmRegister::R0, Register::A0);
        self.emit(SvmInstruction::exit());
        assert(self.output.instructions@ =~= old(self).output.instructions@ + epilogue(self.config));
    }

    /// The RISC-V byte address of the instruction at index `idx`.
    fn byte_address_of(&self, idx: usize) -> (a: i32)
        requires
            idx < 0x4000_0000,
        ensures
            a == byte_address(self.config, idx as int),
    {
        self.config.initial_pc.wrapping_add((idx as u32) * 4) as i32
    }

    /// Get memory address for a RISC-V register
    fn regfile_addr(&self, reg: Register) -> (a: u64)
        requires
            self.config.regfile_base <= u64::MAX - 124,
        ensures
            a == reg_addr(self.config, reg),
    {
        self.config.regfile_base + (reg.index() as u64 * 4)
    }

    /// Load a RISC-V register value into an SVM register
    fn load_rv_reg(&mut self, svm_reg: SvmRegister, rv_reg: Register)
        requires
            old(self).config.regfile_base <= u64::MAX - 124,
        ensures
            final(self).appended(old(self), load_code(old(self).config, svm_reg, rv_reg)),
    {
        if rv_reg == Register::ZERO {
            // x0 is always 0
            self.emit(SvmInstruction::mov64_imm(svm_reg, 0));
        } else {
            let addr = self.regfile_addr(rv_reg);
            self.emit(SvmInstruction::mov64_imm(SvmRegister::R8, addr as i32));
            self.emit(SvmInstruction::ldx(MemorySize::Word, svm_reg, SvmRegister::R8, 0));
            // Sign extend from 32-bit to 64-bit
            self.emit(SvmInstruction::lsh64_imm(svm_reg, 32));
            self.emit(SvmInstruction::arsh64_imm(svm_reg, 32));
        }
        assert(self.output.instructions@ =~= old(self).output.instructions@ + load_code(self.config, svm_reg, rv_reg));
    }

    /// Store an SVM register value to a RISC-V register
    fn store_rv_reg(&mut self, rv_reg: Register, svm_reg: SvmRegister)
        requires
            old(self).config.regfile_base <= u64::MAX - 124,
        ensures
            final(self).appended(old(self), store_code(old(self).config, rv_reg, svm_reg)),
    {
        if rv_reg == Register::ZERO {
            // Writes to x0 are ignored
            assert(self.output.instructions@ =~= old(self).output.instructions@ + store_code(self.config, rv_reg, svm_reg));
            return;
        }
        let addr = self.regfile_addr(rv_reg);
        self.emit(SvmInstruction::mov64_imm(SvmRegister::R8, addr as i32));
        self.emit(SvmInstruction::stx(MemorySize::Word, SvmRegister::R8, svm_reg, 0));
        assert(self.output.instructions@ =~= old(self).output.instructions@ + store_code(self.config, rv_reg, svm_reg));
    }

    /// Sign-extends the low 32 bits of a register.
    fn emit_sign_extend(&mut self, reg: SvmRegister)
        ensures
            final(self).appended(old(self), sign_extend32(reg)),
    {
        self.emit(SvmInstruction::lsh64_imm(reg, 32));
        self.emit(SvmInstruction::arsh64_imm(reg, 32));
        assert(self.output.instructions@ =~= old(self).output.instructions@ + sign_extend32(reg));
    }

    /// Zero-extends the low 32 bits of a register.
    fn emit_zero_extend(&mut self, reg: SvmRegister)
        ensures
            final(self).appended(old(self), zero_extend32(reg)),
    {
        self.emit(SvmInstruction::lsh64_imm(reg, 32));
        self.emit(SvmInstruction::rsh64_imm(reg, 32));
        assert(self.output.instructions@ =~= old(self).output.instructions@ + zero_extend32(reg));
    }

    // R-type using SVM opcodes directly
    fn compile_r_type_svm(&mut self, rd: Register, rs1: Register, rs2: Register, op: u8) -> (r:
        CompilerResult<()>)
        requires
            old(self).config.regfile_base <= u64::MAX - 124,
        ensures
            r is Ok,
            final(self).appended(old(self), r_type_code(old(self).config, rd, rs1, rs2, op)),
    {
        reveal(r_type_code);
        self.load_rv_reg(SvmRegister::R1, rs1);
        self.load_rv_reg(SvmRegister::R2, rs2);
        self.emit(SvmInstruction::alu32_reg(op, SvmRegister::R1, SvmRegister::R2));
        // Sign extend result
        self.emit_sign_extend(SvmRegister::R1);
        self.store_rv_reg(rd, SvmRegister::R1);
        assert(self.output.instructions@ =~= old(self).output.instructions@ + r_type_code(self.config, rd, rs1, rs2, op));
        Ok(())
    }

    // I-type ALU operations
    fn compile_i_type(&mut self, rd: Register, rs1: Register, imm: i32, op: u8) -> (r:
        CompilerResult<()>)
        requires
            old(self).config.regfile_base <= u64::MAX - 124,
        ensures
            r is Ok,
            final(self).appended(old(self), i_type_code(old(self).config, rd, rs1, imm, op)),
    {
        reveal(i_type_code);
        self.load_rv_reg(SvmRegister::R1, rs1);
        self.emit(SvmInstruction::alu32_imm(op, SvmRegister::R1, imm));
        // Sign extend result
        self.emit_sign_extend(SvmRegister::R1);
        self.store_rv_reg(rd, SvmRegister::R1);
        assert(self.output.instructions@ =~= old(self).output.instructions@ + i_type_code(self.config, rd, rs1, imm, op));
        Ok(())
    }

    // Special handling for ADDI (used for many pseudo-instructions)
    fn compile_i_type_add(&mut self, rd: Register, rs1: Register, imm: i32) -> (r: CompilerResult<
        (),
    >)
        requires
            old(self).config.regfile_base <= u64::MAX - 124,
        ensures
            r is Ok,
            final(self).appended(old(self), i_type_code(old(self).config, rd, rs1, imm, opcodes::ADD)),
    {
        reveal(i_type_code);
        self.load_rv_reg(SvmRegister::R1, rs1);
        self.emit(SvmInstruction::add32_imm(SvmRegister::R1, imm));
        // Sign extend result
        self.emit_sign_extend(SvmRegister::R1);
        self.store_rv_reg(rd, SvmRegister::R1);
        assert(self.output.instructions@ =~= old(self).output.instructions@ + i_type_code(self.config, rd, rs1, imm, opcodes::ADD));
        Ok(())
    }

    // Shift operations with register
    #[verifier::rlimit(50)]
    fn compile_shift(&mut self, rd: Register, rs1: Register, rs2: Register, right: bool, arithmetic: bool) -> (r: CompilerResult<()>)
        requires
            old(self).config.regfile_base <= u64::MAX - 124,
        ensures
            r is Ok,
            final(self).appended(old(self), shift_code(old(self).config, rd, rs1, rs2, right, arithmetic)),
    {
        reveal(shift_code);
        self.load_rv_reg(SvmRegister::R1, rs1);
        self.load_rv_reg(SvmRegister::R2, rs2);
        // Mask shift amount to 5 bits
        self.emit(SvmInstruction::and32_imm(SvmRegister::R2, 0x1f));
        let ghost mid = self.output.instructions@;
        let ghost by = if right {
            if arithmetic {
                SvmInstruction::arsh64_reg(SvmRegister::R1, SvmRegister::R2)
            } else {
                SvmInstruction::rsh64_reg(SvmRegister::R1, SvmRegister::R2)
            }
        } else {
            SvmInstruction::lsh64_reg(SvmRegister::R1, SvmRegister::R2)
        };
        if right {
            if arithmetic {
                // For arithmetic right shift, first sign extend to 64-bit, shift, then truncate
                self.emit_sign_extend(SvmRegister::R1);
                self.emit(SvmInstruction::arsh64_reg(SvmRegister::R1, SvmRegister::R2));
            } else {
                // Logical right shift - zero extend first by shifting left then right
                self.emit_zero_extend(SvmRegister::R1);
                self.emit(SvmInstruction::rsh64_reg(SvmRegister::R1, SvmRegister::R2));
            }
        } else {
            self.emit(SvmInstruction::lsh64_reg(SvmRegister::R1, SvmRegister::R2));
        }
        assert(self.output.instructions@ =~= mid + shift_core(right, arithmetic, seq![by]));
        let ghost mid2 = self.output.instructions@;
        // Truncate to 32-bit and sign extend
        self.emit_sign_extend(SvmRegister::R1);
        self.store_rv_reg(rd, SvmRegister::R1);
        assert(self.output.instructions@ =~= mid2 + sign_extend32(SvmRegister::R1) + store_code(self.config, rd, SvmRegister::R1));
        assert(self.output.instructions@ =~= old(self).output.instructions@ + shift_code(self.config, rd, rs1, rs2, right, arithmetic));
        Ok(())
    }

    // Shift operations with immediate
    #[verifier::rlimit(50)]
    fn compile_shift_imm(&mut self, rd: Register, rs1: Register, shamt: u32, right: bool, arithmetic: bool) -> (r: CompilerResult<()>)
        requires
            old(self).config.regfile_base <= u64::MAX - 124,
        ensures
            r is Ok,
            final(self).appended(old(self), shift_imm_code(old(self).config, rd, rs1, shamt, right, arithmetic)),
    {
        reveal(shift_imm_code);
        self.load_rv_reg(SvmRegister::R1, rs1);
        let ghost shamt_in = shamt;
        let ghost mid = self.output.instructions@;
        assert(shamt & 0x1f <= 0x1f) by (bit_vector);
        let shamt = (shamt & 0x1f) as i32;
        let ghost by = if right {
            if arithmetic {
                SvmInstruction::arsh64_imm(SvmRegister::R1, shamt)
            } else {
                SvmInstruction::rsh64_imm(SvmRegister::R1, shamt)
            }
        } else {
            SvmInstruction::lsh64_imm(SvmRegister::R1, shamt)
        };
        if right {
            if arithmetic {
                // Sign extend first, then arithmetic shift
                self.emit_sign_extend(SvmRegister::R1);
                self.emit(SvmInstruction::arsh64_imm(SvmRegister::R1, shamt));
            } else {
                // Zero extend (lsh then rsh) and logical shift
                self.emit_zero_extend(SvmRegister::R1);
                self.emit(SvmInstruction::rsh64_imm(SvmRegister::R1, shamt));
            }
        } else {
            self.emit(SvmInstruction::lsh64_imm(SvmRegister::R1, shamt));
        }
        assert(self.output.instructions@ =~= mid + shift_core(right, arithmetic, seq![by]));
        let ghost mid2 = self.output.instructions@;
        // Truncate to 32-bit and sign extend
        self.emit_sign_extend(SvmRegister::R1);
        self.store_rv_reg(rd, SvmRegister::R1);
        assert(self.output.instructions@ =~= mid2 + sign_extend32(SvmRegister::R1) + store_code(self.config, rd, SvmRegister::R1));
        assert(self.output.instructions@ =~= old(self).output.instructions@ + shift_imm_code(self.config, rd, rs1, shamt_in, right, arithmetic));
        Ok(())
    }
    // Set less than (register)
    fn compile_slt(&mut self, rd: Register, rs1: Register, rs2: Register, signed: bool) -> (r:
        CompilerResult<()>)
        requires
            old(self).config.regfile_base <= u64::MAX - 124,
        ensures
            r is Ok,
            final(self).appended(old(self), slt_code(old(self).config, rd, rs1, rs2, signed)),
    {
        reveal(slt_code);
        self.load_rv_reg(SvmRegister::R1, rs1);
        self.load_rv_reg(SvmRegister::R2, rs2);
        // Use conditional jump to set result
        // r3 = 1 (assume less than)
        self.emit(SvmInstruction::mov64_imm(SvmRegister::R3, 1));
        if signed {
            // jslt r1, r2, +1
            self.emit(SvmInstruction::jmp_reg(opcodes::JSLT, SvmRegister::R1, SvmRegister::R2, 1));
        } else {
            // jlt r1, r2, +1
            self.emit(SvmInstruction::jmp_reg(opcodes::JLT, SvmRegister::R1, SvmRegister::R2, 1));
        }
        // r3 = 0 (not less than)
        self.emit(SvmInstruction::mov64_imm(SvmRegister::R3, 0));
        self.store_rv_reg(rd, SvmRegister::R3);
        assert(self.output.instructions@ =~= old(self).output.instructions@ + slt_code(self.config, rd, rs1, rs2, signed));
        Ok(())
    }

    // Set less than immediate
    fn compile_slti(&mut self, rd: Register, rs1: Register, imm: i32, signed: bool) -> (r:
        CompilerResult<()>)
        requires
            old(self).config.regfile_base <= u64::MAX - 124,
        ensures
            r is Ok,
            final(self).appended(old(self), slti_code(old(self).config, rd, rs1, imm, signed)),
    {
        reveal(slti_code);
        self.load_rv_reg(SvmRegister::R1, rs1);
        // r3 = 1 (assume less than)
        self.emit(SvmInstruction::mov64_imm(SvmRegister::R3, 1));
        if signed {
            self.emit(SvmInstruction::jmp_imm(opcodes::JSLT, SvmRegister::R1, imm, 1));
        } else {
            // For unsigned, we need to handle sign extension carefully
            self.emit(SvmInstruction::jmp_imm(opcodes::JLT, SvmRegister::R1, imm, 1));
        }
        self.emit(SvmInstruction::mov64_imm(SvmRegister::R3, 0));
        self.store_rv_reg(rd, SvmRegister::R3);
        assert(self.output.instructions@ =~= old(self).output.instructions@ + slti_code(self.config, rd, rs1, imm, signed));
        Ok(())
    }

    /// The effective address `rs1 + imm + memory_base`, in `r1`.
    fn emit_address(&mut self, rs1: Register, imm: i32)
        requires
            old(self).config.regfile_base <= u64::MAX - 124,
        ensures
            final(self).appended(old(self), address_code(old(self).config, rs1, imm)),
    {
        self.load_rv_reg(SvmRegister::R1, rs1);
        self.emit(SvmInstruction::add64_imm(SvmRegister::R1, imm));
        self.emit(SvmInstruction::add64_imm(SvmRegister::R1, self.config.memory_base as i32));
        assert(self.output.instructions@ =~= old(self).output.instructions@ + address_code(self.config, rs1, imm));
    }

    // Load instructions
    fn compile_load(&mut self, rd: Register, rs1: Register, imm: i32, size: MemorySize, sign_extend: bool) -> (r: CompilerResult<()>)
        requires
            old(self).config.regfile_base <= u64::MAX - 124,
        ensures
            r is Ok,
            final(self).appended(old(self), load_mem_code(old(self).config, rd, rs1, imm, size, sign_extend)),
    {
        reveal(load_mem_code);
        // Calculate address: base + imm + memory_base
        self.emit_address(rs1, imm);
        // Load value
        self.emit(SvmInstruction::ldx(size, SvmRegister::R2, SvmRegister::R1, 0));
        let ghost mid = self.output.instructions@;
        // Sign or zero extend to 32 bits
        if sign_extend {
            match size {
                MemorySize::Byte => {
                    self.emit(SvmInstruction::lsh64_imm(SvmRegister::R2, 56));
                    self.emit(SvmInstruction::arsh64_imm(SvmRegister::R2, 56));
                },
                MemorySize::Half => {
                    self.emit(SvmInstruction::lsh64_imm(SvmRegister::R2, 48));
                    self.emit(SvmInstruction::arsh64_imm(SvmRegister::R2, 48));
                },
                MemorySize::Word => {
                    self.emit(SvmInstruction::lsh64_imm(SvmRegister::R2, 32));
                    self.emit(SvmInstruction::arsh64_imm(SvmRegister::R2, 32));
                },
                MemorySize::DWord => {},
            }
        }
        assert(self.output.instructions@ =~= mid + load_extension(size, sign_extend));
        self.store_rv_reg(rd, SvmRegister::R2);
        assert(self.output.instructions@ =~= old(self).output.instructions@ + load_mem_code(self.config, rd, rs1, imm, size, sign_extend));
        Ok(())
    }

    // Store instructions
    fn compile_store(&mut self, rs1: Register, rs2: Register, imm: i32, size: MemorySize) -> (r:
        CompilerResult<()>)
        requires
            old(self).config.regfile_base <= u64::MAX - 124,
        ensures
            r is Ok,
            final(self).appended(old(self), store_mem_code(old(self).config, rs1, rs2, imm, size)),
    {
        reveal(store_mem_code);
        // Calculate address
        self.emit_address(rs1, imm);
        // Load value to store
        self.load_rv_reg(SvmRegister::R2, rs2);
        // Store
        self.emit(SvmInstruction::stx(size, SvmRegister::R1, SvmRegister::R2, 0));
        assert(self.output.instructions@ =~= old(self).output.instructions@ + store_mem_code(self.config, rs1, rs2, imm, size));
        Ok(())
    }

    /// The index a branch or jump with byte offset `imm` from the current
    /// instruction goes to.
    fn branch_target(&self, imm: i32) -> (t: usize)
        requires
            self.rv_pc < 0x4000_0000,
        ensures
            t == (self.rv_pc + crate::svm::semantics::quotient_toward_zero(imm as int, 4)) as usize,
    {
        // imm is byte offset, divide by 4 to get instruction offset
        let inst_offset = imm / 4;
        (self.rv_pc as i32 + inst_offset) as usize
    }

    // Branch instructions
    fn compile_branch(&mut self, rs1: Register, rs2: Register, imm: i32, jmp_op: u8) -> (r:
        CompilerResult<()>)
        requires
            old(self).config.regfile_base <= u64::MAX - 124,
            old(self).rv_pc < 0x4000_0000,
        ensures
            r is Ok,
            final(self).output.instructions@ == old(self).output.instructions@ + branch_code(old(self).config, rs1, rs2, jmp_op),
            final(self).branch_fixups@ == old(self).branch_fixups@.push((
                (old(self).output.instructions@.len() + branch_code(old(self).config, rs1, rs2, jmp_op).len() - 1) as usize,
                (old(self).rv_pc + crate::svm::semantics::quotient_toward_zero(imm as int, 4)) as usize,
            )),
            final(self).config == old(self).config,
            final(self).pc_map == old(self).pc_map,
            final(self).rv_pc == old(self).rv_pc,
            final(self).return_sites == old(self).return_sites,
            final(self).jalr_fixups == old(self).jalr_fixups,
    {
        reveal(branch_code);
        self.load_rv_reg(SvmRegister::R1, rs1);
        self.load_rv_reg(SvmRegister::R2, rs2);
        // Calculate target instruction index
        let target_idx = self.branch_target(imm);
        // Emit jump with placeholder offset (will be fixed up later)
        let jmp_idx = self.output.len();
        self.emit(SvmInstruction::jmp_reg(jmp_op, SvmRegister::R1, SvmRegister::R2, 0));
        // Record fixup
        self.branch_fixups.push((jmp_idx, target_idx));
        assert(self.output.instructions@ =~= old(self).output.instructions@ + branch_code(self.config, rs1, rs2, jmp_op));
        Ok(())
    }

    // JAL instruction
    fn compile_jal(&mut self, rd: Register, imm: i32) -> (r: CompilerResult<()>)
        requires
            old(self).config.regfile_base <= u64::MAX - 124,
            old(self).rv_pc + 1 < 0x4000_0000,
        ensures
            r is Ok,
            final(self).output.instructions@ == old(self).output.instructions@ + jal_code(old(self).config, rd, old(self).rv_pc as int),
            final(self).branch_fixups@ == old(self).branch_fixups@.push((
                (old(self).output.instructions@.len() + jal_code(old(self).config, rd, old(self).rv_pc as int).len() - 1) as usize,
                (old(self).rv_pc + crate::svm::semantics::quotient_toward_zero(imm as int, 4)) as usize,
            )),
            final(self).return_sites@ == (if rd != Register::ZERO {
                old(self).return_sites@.push((old(self).rv_pc + 1) as usize)
            } else {
                old(self).return_sites@
            }),
            final(self).config == old(self).config,
            final(self).pc_map == old(self).pc_map,
            final(self).rv_pc == old(self).rv_pc,
            final(self).jalr_fixups == old(self).jalr_fixups,
    {
        reveal(jal_code);
        // Save return address (next instruction's address in RISC-V terms)
        let return_addr = self.byte_address_of(self.rv_pc + 1);
        self.emit(SvmInstruction::mov64_imm(SvmRegister::R1, return_addr));
        self.store_rv_reg(rd, SvmRegister::R1);
        // Record this as a potential return site (for JALR dispatch); each index is
        // recorded once, as the instruction index only grows
        if rd != Register::ZERO {
            self.return_sites.push(self.rv_pc + 1);
        }
        // Calculate target
        let target_idx = self.branch_target(imm);
        // Emit unconditional jump
        let jmp_idx = self.output.len();
        self.emit(SvmInstruction::ja(0));
        self.branch_fixups.push((jmp_idx, target_idx));
        assert(self.output.instructions@ =~= old(self).output.instructions@ + jal_code(self.config, rd, self.rv_pc as int));
        Ok(())
    }

    // JALR instruction
    fn compile_jalr(&mut self, rd: Register, rs1: Register, imm: i32) -> (r: CompilerResult<()>)
        requires
            old(self).config.regfile_base <= u64::MAX - 124,
            old(self).rv_pc + 1 < 0x4000_0000,
        ensures
            r is Ok,
            final(self).output.instructions@ == old(self).output.instructions@ + jalr_code(old(self).config, rd, rs1, imm, old(self).rv_pc as int),
            final(self).jalr_fixups@ == old(self).jalr_fixups@.push(
                (old(self).output.instructions@.len() + jalr_code(old(self).config, rd, rs1, imm, old(self).rv_pc as int).len() - 1) as usize,
            ),
            final(self).config == old(self).config,
            final(self).pc_map == old(self).pc_map,
            final(self).rv_pc == old(self).rv_pc,
            final(self).branch_fixups == old(self).branch_fixups,
            final(self).return_sites == old(self).return_sites,
    {
        reveal(jalr_code);
        // Calculate target address in bytes
        self.load_rv_reg(SvmRegister::R1, rs1);
        self.emit(SvmInstruction::add64_imm(SvmRegister::R1, imm));
        // Clear lowest bit (per RISC-V spec)
        assert(!1i32 == -2i32) by (bit_vector);
        self.emit(SvmInstruction::and64_imm(SvmRegister::R1, !1));
        let ghost mid = self.output.instructions@;
        // Save return address (for calls, not returns)
        if rd != Register::ZERO {
            let return_addr = self.byte_address_of(self.rv_pc + 1);
            self.emit(SvmInstruction::mov64_imm(SvmRegister::R2, return_addr));
            self.store_rv_reg(rd, SvmRegister::R2);
        }
        assert(self.output.instructions@ =~= mid + (if rd != Register::ZERO {
            seq![SvmInstruction::mov64_imm(SvmRegister::R2, return_address(self.config, self.rv_pc as int))] + store_code(self.config, rd, SvmRegister::R2)
        } else {
            seq![]
        }));
        // R1 now contains the target byte address
        // We'll jump to the dispatch table which will handle the dynamic jump
        // Store jump index for later fixup
        let jmp_idx = self.output.len();
        self.emit(SvmInstruction::ja(0));  // Will be fixed up to point to dispatch table
        self.jalr_fixups.push(jmp_idx);
        assert(self.output.instructions@ =~= old(self).output.instructions@ + jalr_code(self.config, rd, rs1, imm, self.rv_pc as int));
        Ok(())
    }

    // LUI instruction
    fn compile_lui(&mut self, rd: Register, imm: i32) -> (r: CompilerResult<()>)
        requires
            old(self).config.regfile_base <= u64::MAX - 124,
        ensures
            r is Ok,
            final(self).appended(old(self), constant_code(old(self).config, rd, imm)),
    {
        reveal(constant_code);
        // imm already has lower 12 bits as 0
        self.emit(SvmInstruction::mov64_imm(SvmRegister::R1, imm));
        self.store_rv_reg(rd, SvmRegister::R1);
        assert(self.output.instructions@ =~= old(self).output.instructions@ + constant_code(self.config, rd, imm));
        Ok(())
    }

    // AUIPC instruction
    fn compile_auipc(&mut self, rd: Register, imm: i32) -> (r: CompilerResult<()>)
        requires
            old(self).config.regfile_base <= u64::MAX - 124,
            old(self).rv_pc < 0x4000_0000,
        ensures
            r is Ok,
            final(self).appended(old(self), constant_code(old(self).config, rd, vstd::wrapping::i32_specs::wrapping_add(byte_address(old(self).config, old(self).rv_pc as int), imm))),
    {
        reveal(constant_code);
        // PC + imm (imm is upper 20 bits << 12)
        let pc_val = self.byte_address_of(self.rv_pc);
        let result = pc_val.wrapping_add(imm);
        self.emit(SvmInstruction::mov64_imm(SvmRegister::R1, result));
        self.store_rv_reg(rd, SvmRegister::R1);
        assert(self.output.instructions@ =~= old(self).output.instructions@ + constant_code(self.config, rd, result));
        Ok(())
    }

    // ECALL - system call
    fn compile_ecall(&mut self) -> (r: CompilerResult<()>)
        requires
            old(self).config.regfile_base <= u64::MAX - 124,
        ensures
            r is Ok,
            final(self).appended(old(self), load_code(old(self).config, SvmRegister::R0, Register::A0) + seq![SvmInstruction::exit()]),
    {
        // In our model, ecall with a7=93 is exit
        // Load return value from a0 and exit
        self.load_rv_reg(SvmRegister::R0, Register::A0);
        self.emit(SvmInstruction::exit());
        assert(self.output.instructions@ =~= old(self).output.instructions@ + (load_code(self.config, SvmRegister::R0, Register::A0) + seq![SvmInstruction::exit()]));
        Ok(())
    }

    // EBREAK
    fn compile_ebreak(&mut self) -> (r: CompilerResult<()>)
        ensures
            r is Ok,
            final(self).appended(old(self), seq![SvmInstruction::exit()]),
    {
        // For now, treat as exit
        self.emit(SvmInstruction::exit());
        Ok(())
    }

    // CSR instructions (simplified - most CSRs are ignored)
    fn compile_csr(&mut self, rd: Register, _rs1: Register, _csr: u16) -> (r: CompilerResult<()>)
        requires
            old(self).config.regfile_base <= u64::MAX - 124,
        ensures
            r is Ok,
            final(self).appended(old(self), constant_code(old(self).config, rd, 0)),
    {
        reveal(constant_code);
        // Return 0 for most CSRs
        self.emit(SvmInstruction::mov64_imm(SvmRegister::R1, 0));
        self.store_rv_reg(rd, SvmRegister::R1);
        assert(self.output.instructions@ =~= old(self).output.instructions@ + constant_code(self.config, rd, 0));
        Ok(())
    }

    fn compile_csr_imm(&mut self, rd: Register, _csr: u16) -> (r: CompilerResult<()>)
        requires
            old(self).config.regfile_base <= u64::MAX - 124,
        ensures
            r is Ok,
            final(self).appended(old(self), constant_code(old(self).config, rd, 0)),
    {
        reveal(constant_code);
        self.emit(SvmInstruction::mov64_imm(SvmRegister::R1, 0));
        self.store_rv_reg(rd, SvmRegister::R1);
        assert(self.output.instructions@ =~= old(self).output.instructions@ + constant_code(self.config, rd, 0));
        Ok(())
    }

    // MUL instruction
    fn compile_mul(&mut self, rd: Register, rs1: Register, rs2: Register) -> (r: CompilerResult<()>)
        requires
            old(self).config.regfile_base <= u64::MAX - 124,
        ensures
            r is Ok,
            final(self).appended(old(self), r_type_code(old(self).config, rd, rs1, rs2, opcodes::MUL)),
    {
        reveal(r_type_code);
        self.load_rv_reg(SvmRegister::R1, rs1);
        self.load_rv_reg(SvmRegister::R2, rs2);
        self.emit(SvmInstruction::mul32_reg(SvmRegister::R1, SvmRegister::R2));
        // Sign extend
        self.emit_sign_extend(SvmRegister::R1);
        self.store_rv_reg(rd, SvmRegister::R1);
        assert(self.output.instructions@ =~= old(self).output.instructions@ + r_type_code(self.config, rd, rs1, rs2, opcodes::MUL));
        Ok(())
    }

    // MULH, MULHSU, MULHU - get upper 32 bits of multiplication
    #[verifier::rlimit(100)]
    fn compile_mulh(&mut self, rd: Register, rs1: Register, rs2: Register, rs1_signed: bool, rs2_signed: bool) -> (r: CompilerResult<()>)
        requires
            old(self).config.regfile_base <= u64::MAX - 124,
        ensures
            r is Ok,
            final(self).appended(old(self), mulh_code(old(self).config, rd, rs1, rs2, rs1_signed, rs2_signed)),
    {
        reveal(mulh_code);
        self.load_rv_reg(SvmRegister::R1, rs1);
        self.load_rv_reg(SvmRegister::R2, rs2);
        let ghost mid = self.output.instructions@;
        // Sign/zero extend based on signedness
        if rs1_signed {
            // Already sign-extended by load_rv_reg
        } else {
            // Zero-extend: shift left 32, then logical shift right 32
            self.emit_zero_extend(SvmRegister::R1);
        }
        if rs2_signed {
            // Already sign-extended by load_rv_reg
        } else {
            // Zero-extend
            self.emit_zero_extend(SvmRegister::R2);
        }
        assert(self.output.instructions@ =~= mid + (if rs1_signed { seq![] } else { zero_extend32(SvmRegister::R1) }) + (if rs2_signed { seq![] } else { zero_extend32(SvmRegister::R2) }));
        // 64-bit multiply
        self.emit(SvmInstruction::mul64_reg(SvmRegister::R1, SvmRegister::R2));
        // Get upper 32 bits
        self.emit(SvmInstruction::rsh64_imm(SvmRegister::R1, 32));
        // Sign extend result for storage
        self.emit_sign_extend(SvmRegister::R1);
        self.store_rv_reg(rd, SvmRegister::R1);
        assert(self.output.instructions@ =~= old(self).output.instructions@ + mulh_code(self.config, rd, rs1, rs2, rs1_signed, rs2_signed));
        Ok(())
    }

    /// Sets the offset of the jump at `idx`.
    fn set_offset(&mut self, idx: usize, offset: i16)
        requires
            idx < old(self).output.instructions@.len(),
        ensures
            final(self).only_output_changed(old(self)),
            final(self).output.instructions@ == old(self).output.instructions@.update(
                idx as int,
                SvmInstruction { offset, ..old(self).output.instructions@[idx as int] },
            ),
    {
        let mut inst = self.output.instructions[idx];
        inst.offset = offset;
        self.output.instructions.set(idx, inst);
    }
    // DIV/DIVU instruction
    #[verifier::rlimit(50)]
    fn compile_div(&mut self, rd: Register, rs1: Register, rs2: Register, signed: bool) -> (r:
        CompilerResult<()>)
        requires
            old(self).config.regfile_base <= u64::MAX - 124,
        ensures
            r is Ok,
            final(self).appended(old(self), div_code(old(self).config, rd, rs1, rs2, signed)),
    {
        reveal(div_code);
        self.load_rv_reg(SvmRegister::R1, rs1);
        self.load_rv_reg(SvmRegister::R2, rs2);
        let ghost pre = self.output.instructions@;
        // Check for division by zero - return -1 for signed, 0xFFFFFFFF for unsigned
        self.emit(SvmInstruction::jmp_imm(opcodes::JNE, SvmRegister::R2, 0, 2));
        self.emit(SvmInstruction::mov64_imm(SvmRegister::R1, -1));
        let skip_idx = self.output.len();
        self.emit(SvmInstruction::ja(0));  // Will be fixed up
        let ghost head = seq![
            SvmInstruction::jmp_imm(opcodes::JNE, SvmRegister::R2, 0, 2),
            SvmInstruction::mov64_imm(SvmRegister::R1, -1i32),
        ];
        if signed {
            // Check for overflow: -2^31 / -1
            self.emit(SvmInstruction::mov64_imm(SvmRegister::R3, i32::MIN));
            self.emit(SvmInstruction::jmp_reg(opcodes::JNE, SvmRegister::R1, SvmRegister::R3, 4));
            self.emit(SvmInstruction::mov64_imm(SvmRegister::R3, -1));
            self.emit(SvmInstruction::jmp_reg(opcodes::JNE, SvmRegister::R2, SvmRegister::R3, 2));
            // Overflow case: return -2^31
            self.emit(SvmInstruction::mov64_imm(SvmRegister::R1, i32::MIN));
            let skip_div_idx = self.output.len();
            self.emit(SvmInstruction::ja(0));
            // Normal signed division
            self.emit(SvmInstruction::sdiv32_reg(SvmRegister::R1, SvmRegister::R2));
            // Fix up the skip jump
            let current = self.output.len();
            self.set_offset(skip_div_idx, (current - skip_div_idx - 1) as i16);
        } else {
            // Unsigned division
            self.emit(SvmInstruction::div32_reg(SvmRegister::R1, SvmRegister::R2));
        }
        // Fix up the division by zero skip
        let current = self.output.len();
        self.set_offset(skip_idx, (current - skip_idx - 1) as i16);
        let ghost body = if signed {
            seq![
                SvmInstruction::mov64_imm(SvmRegister::R3, i32::MIN),
                SvmInstruction::jmp_reg(opcodes::JNE, SvmRegister::R1, SvmRegister::R3, 4),
                SvmInstruction::mov64_imm(SvmRegister::R3, -1i32),
                SvmInstruction::jmp_reg(opcodes::JNE, SvmRegister::R2, SvmRegister::R3, 2),
                SvmInstruction::mov64_imm(SvmRegister::R1, i32::MIN),
                SvmInstruction::ja(1),
                SvmInstruction::sdiv32_reg(SvmRegister::R1, SvmRegister::R2),
            ]
        } else {
            seq![SvmInstruction::div32_reg(SvmRegister::R1, SvmRegister::R2)]
        };
        assert(self.output.instructions@ =~= pre + (head + seq![SvmInstruction::ja(body.len() as i16)]) + body);
        // Sign extend result
        self.emit_sign_extend(SvmRegister::R1);
        self.store_rv_reg(rd, SvmRegister::R1);
        assert(self.output.instructions@ =~= old(self).output.instructions@ + div_code(self.config, rd, rs1, rs2, signed));
        Ok(())
    }

    // REM/REMU instruction
    #[verifier::rlimit(50)]
    fn compile_rem(&mut self, rd: Register, rs1: Register, rs2: Register, signed: bool) -> (r:
        CompilerResult<()>)
        requires
            old(self).config.regfile_base <= u64::MAX - 124,
        ensures
            r is Ok,
            final(self).appended(old(self), rem_code(old(self).config, rd, rs1, rs2, signed)),
    {
        reveal(rem_code);
        self.load_rv_reg(SvmRegister::R1, rs1);
        self.load_rv_reg(SvmRegister::R2, rs2);
        let ghost pre = self.output.instructions@;
        // Check for division by zero - return dividend
        // If R2 != 0, skip 1 instruction (the ja that jumps to end)
        self.emit(SvmInstruction::jmp_imm(opcodes::JNE, SvmRegister::R2, 0, 1));
        let skip_to_end_idx = self.output.len();
        self.emit(SvmInstruction::ja(0));  // Skip to end (result is already in R1)
        if signed {
            // Check for overflow: -2^31 % -1 = 0
            // First check if R1 == i32::MIN
            self.emit(SvmInstruction::mov64_imm(SvmRegister::R3, i32::MIN));
            // If R1 != MIN, skip the overflow check (skip next 4 instructions)
            self.emit(SvmInstruction::jmp_reg(opcodes::JNE, SvmRegister::R1, SvmRegister::R3, 4));
            // R1 == MIN, now check if R2 == -1
            self.emit(SvmInstruction::mov64_imm(SvmRegister::R3, -1));
            // If R2 != -1, skip the overflow result (skip next 2 instructions)
            self.emit(SvmInstruction::jmp_reg(opcodes::JNE, SvmRegister::R2, SvmRegister::R3, 2));
            // Overflow case: return 0
            self.emit(SvmInstruction::mov64_imm(SvmRegister::R1, 0));
            let skip_rem_idx = self.output.len();
            self.emit(SvmInstruction::ja(0));  // Jump to end
            // Normal signed remainder using quotient * divisor subtraction method
            // rem = dividend - (dividend / divisor) * divisor
            // Save dividend in R3
            self.emit(SvmInstruction::mov64_reg(SvmRegister::R3, SvmRegister::R1));
            // Compute signed division: R1 = R1 / R2
            self.emit(SvmInstruction::sdiv32_reg(SvmRegister::R1, SvmRegister::R2));
            // Compute quotient * divisor: R1 = R1 * R2
            self.emit(SvmInstruction::mul32_reg(SvmRegister::R1, SvmRegister::R2));
            // Compute remainder: R1 = R3 - R1 (dividend - quotient * divisor)
            self.emit(SvmInstruction::sub32_reg(SvmRegister::R3, SvmRegister::R1));
            self.emit(SvmInstruction::mov64_reg(SvmRegister::R1, SvmRegister::R3));
            // Fix up skip jump
            let current = self.output.len();
            self.set_offset(skip_rem_idx, (current - skip_rem_idx - 1) as i16);
        } else {
            // Unsigned modulo
            // Zero-extend operands first
            self.emit_zero_extend(SvmRegister::R1);
            self.emit_zero_extend(SvmRegister::R2);
            self.emit(SvmInstruction::mod64_reg(SvmRegister::R1, SvmRegister::R2));
        }
        // Fix up division by zero skip
        let current = self.output.len();
        self.set_offset(skip_to_end_idx, (current - skip_to_end_idx - 1) as i16);
        let ghost body = if signed {
            seq![
                SvmInstruction::mov64_imm(SvmRegister::R3, i32::MIN),
                SvmInstruction::jmp_reg(opcodes::JNE, SvmRegister::R1, SvmRegister::R3, 4),
                SvmInstruction::mov64_imm(SvmRegister::R3, -1i32),
                SvmInstruction::jmp_reg(opcodes::JNE, SvmRegister::R2, SvmRegister::R3, 2),
                SvmInstruction::mov64_imm(SvmRegister::R1, 0),
                SvmInstruction::ja(5),
                SvmInstruction::mov64_reg(SvmRegister::R3, SvmRegister::R1),
                SvmInstruction::sdiv32_reg(SvmRegister::R1, SvmRegister::R2),
                SvmInstruction::mul32_reg(SvmRegister::R1, SvmRegister::R2),
                SvmInstruction::sub32_reg(SvmRegister::R3, SvmRegister::R1),
                SvmInstruction::mov64_reg(SvmRegister::R1, SvmRegister::R3),
            ]
        } else {
            zero_extend32(SvmRegister::R1) + zero_extend32(SvmRegister::R2) + seq![
                SvmInstruction::mod64_reg(SvmRegister::R1, SvmRegister::R2),
            ]
        };
        assert(self.output.instructions@ =~= pre + seq![
            SvmInstruction::jmp_imm(opcodes::JNE, SvmRegister::R2, 0, 1),
            SvmInstruction::ja(body.len() as i16),
        ] + body);
        // Sign extend result
        self.emit_sign_extend(SvmRegister::R1);
        self.store_rv_reg(rd, SvmRegister::R1);
        assert(self.output.instructions@ =~= old(self).output.instructions@ + rem_code(self.config, rd, rs1, rs2, signed));
        Ok(())
    }
    /// Compiling `inst` appended its code and recorded its jumps.
    spec fn compiled_one(&self, old: &Compiler, inst: Instruction) -> bool {
        let c = old.config;
        let idx = old.rv_pc as int;
        let end = old.output.instructions@.len() + inst_code(c, inst, idx).len();
        &&& self.config == old.config
        &&& self.pc_map == old.pc_map
        &&& self.rv_pc == old.rv_pc
        &&& self.output.instructions@ == old.output.instructions@ + inst_code(c, inst, idx)
        &&& self.branch_fixups@ == (if is_direct_jump(inst) {
            old.branch_fixups@.push(((end - 1) as usize, jump_target_index(inst, idx)))
        } else {
            old.branch_fixups@
        })
        &&& self.return_sites@ == (match inst {
            Instruction::Jal { rd, .. } => if rd != Register::ZERO {
                old.return_sites@.push((idx + 1) as usize)
            } else {
                old.return_sites@
            },
            _ => old.return_sites@,
        })
        &&& self.jalr_fixups@ == (if inst is Jalr {
            old.jalr_fixups@.push((end - 1) as usize)
        } else {
            old.jalr_fixups@
        })
    }

    /// R-type operations: the variants `is_register_op` names.
    spec fn is_register_op(inst: Instruction) -> bool {
        inst is Add || inst is Sub || inst is Xor || inst is Or || inst is And || inst is Sll || inst is Srl || inst is Sra || inst is Slt || inst is Sltu
    }

    /// M-extension operations: the variants `is_muldiv_op` names.
    spec fn is_muldiv_op(inst: Instruction) -> bool {
        inst is Mul || inst is Mulh || inst is Mulhsu || inst is Mulhu || inst is Div || inst is Divu || inst is Rem || inst is Remu
    }

    /// I-type ALU operations: the variants `is_immediate_op` names.
    spec fn is_immediate_op(inst: Instruction) -> bool {
        inst is Addi || inst is Xori || inst is Ori || inst is Andi || inst is Slli || inst is Srli || inst is Srai || inst is Slti || inst is Sltiu
    }

    /// Load and store instructions: the variants `is_memory_op` names.
    spec fn is_memory_op(inst: Instruction) -> bool {
        inst is Lb || inst is Lh || inst is Lw || inst is Lbu || inst is Lhu || inst is Sb || inst is Sh || inst is Sw
    }

    /// Branch and jump instructions: the variants `is_control_op` names.
    spec fn is_control_op(inst: Instruction) -> bool {
        inst is Beq || inst is Bne || inst is Blt || inst is Bge || inst is Bltu || inst is Bgeu || inst is Jal || inst is Jalr
    }

    /// Upper-immediate, system and CSR instructions: the variants `is_system_op` names.
    spec fn is_system_op(inst: Instruction) -> bool {
        inst is Lui || inst is Auipc || inst is Ecall || inst is Ebreak || inst is Csrrw || inst is Csrrs || inst is Csrrc || inst is Csrrwi || inst is Csrrsi || inst is Csrrci
    }

    // R-type operations
    #[verifier::rlimit(100)]
    fn compile_register_op(&mut self, inst: Instruction) -> (r: CompilerResult<()>)
        requires
            Self::is_register_op(inst),
            old(self).config.regfile_base <= u64::MAX - 124,
            old(self).rv_pc + 1 < 0x4000_0000,
        ensures
            r is Ok,
            final(self).compiled_one(old(self), inst),
    {
        proof {
            reveal(inst_code);
        }
        match inst {
            Instruction::Add { rd, rs1, rs2 } => self.compile_r_type_svm(rd, rs1, rs2, opcodes::ADD),
            Instruction::Sub { rd, rs1, rs2 } => self.compile_r_type_svm(rd, rs1, rs2, opcodes::SUB),
            Instruction::Xor { rd, rs1, rs2 } => self.compile_r_type_svm(rd, rs1, rs2, opcodes::XOR),
            Instruction::Or { rd, rs1, rs2 } => self.compile_r_type_svm(rd, rs1, rs2, opcodes::OR),
            Instruction::And { rd, rs1, rs2 } => self.compile_r_type_svm(rd, rs1, rs2, opcodes::AND),
            Instruction::Sll { rd, rs1, rs2 } => self.compile_shift(rd, rs1, rs2, false, false),
            Instruction::Srl { rd, rs1, rs2 } => self.compile_shift(rd, rs1, rs2, true, false),
            Instruction::Sra { rd, rs1, rs2 } => self.compile_shift(rd, rs1, rs2, true, true),
            Instruction::Slt { rd, rs1, rs2 } => self.compile_slt(rd, rs1, rs2, true),
            Instruction::Sltu { rd, rs1, rs2 } => self.compile_slt(rd, rs1, rs2, false),
            _ => {
                assert(false);
                Ok(())
            },
        }
    }

    // M-extension operations
    #[verifier::rlimit(100)]
    fn compile_muldiv_op(&mut self, inst: Instruction) -> (r: CompilerResult<()>)
        requires
            Self::is_muldiv_op(inst),
            old(self).config.regfile_base <= u64::MAX - 124,
            old(self).rv_pc + 1 < 0x4000_0000,
        ensures
            r is Ok,
            final(self).compiled_one(old(self), inst),
    {
        proof {
            reveal(inst_code);
        }
        match inst {
            Instruction::Mul { rd, rs1, rs2 } => self.compile_mul(rd, rs1, rs2),
            Instruction::Mulh { rd, rs1, rs2 } => self.compile_mulh(rd, rs1, rs2, true, true),
            Instruction::Mulhsu { rd, rs1, rs2 } => self.compile_mulh(rd, rs1, rs2, true, false),
            Instruction::Mulhu { rd, rs1, rs2 } => self.compile_mulh(rd, rs1, rs2, false, false),
            Instruction::Div { rd, rs1, rs2 } => self.compile_div(rd, rs1, rs2, true),
            Instruction::Divu { rd, rs1, rs2 } => self.compile_div(rd, rs1, rs2, false),
            Instruction::Rem { rd, rs1, rs2 } => self.compile_rem(rd, rs1, rs2, true),
            Instruction::Remu { rd, rs1, rs2 } => self.compile_rem(rd, rs1, rs2, false),
            _ => {
                assert(false);
                Ok(())
            },
        }
    }

    // I-type ALU operations
    #[verifier::rlimit(100)]
    fn compile_immediate_op(&mut self, inst: Instruction) -> (r: CompilerResult<()>)
        requires
            Self::is_immediate_op(inst),
            old(self).config.regfile_base <= u64::MAX - 124,
            old(self).rv_pc + 1 < 0x4000_0000,
        ensures
            r is Ok,
            final(self).compiled_one(old(self), inst),
    {
        proof {
            reveal(inst_code);
        }
        match inst {
            Instruction::Addi { rd, rs1, imm } => self.compile_i_type_add(rd, rs1, imm),
            Instruction::Xori { rd, rs1, imm } => self.compile_i_type(rd, rs1, imm, opcodes::XOR),
            Instruction::Ori { rd, rs1, imm } => self.compile_i_type(rd, rs1, imm, opcodes::OR),
            Instruction::Andi { rd, rs1, imm } => self.compile_i_type(rd, rs1, imm, opcodes::AND),
            Instruction::Slli { rd, rs1, shamt } => self.compile_shift_imm(rd, rs1, shamt, false, false),
            Instruction::Srli { rd, rs1, shamt } => self.compile_shift_imm(rd, rs1, shamt, true, false),
            Instruction::Srai { rd, rs1, shamt } => self.compile_shift_imm(rd, rs1, shamt, true, true),
            Instruction::Slti { rd, rs1, imm } => self.compile_slti(rd, rs1, imm, true),
            Instruction::Sltiu { rd, rs1, imm } => self.compile_slti(rd, rs1, imm, false),
            _ => {
                assert(false);
                Ok(())
            },
        }
    }

    // Load and store instructions
    #[verifier::rlimit(100)]
    fn compile_memory_op(&mut self, inst: Instruction) -> (r: CompilerResult<()>)
        requires
            Self::is_memory_op(inst),
            old(self).config.regfile_base <= u64::MAX - 124,
            old(self).rv_pc + 1 < 0x4000_0000,
        ensures
            r is Ok,
            final(self).compiled_one(old(self), inst),
    {
        proof {
            reveal(inst_code);
        }
        match inst {
            Instruction::Lb { rd, rs1, imm } => self.compile_load(rd, rs1, imm, MemorySize::Byte, true),
            Instruction::Lh { rd, rs1, imm } => self.compile_load(rd, rs1, imm, MemorySize::Half, true),
            Instruction::Lw { rd, rs1, imm } => self.compile_load(rd, rs1, imm, MemorySize::Word, true),
            Instruction::Lbu { rd, rs1, imm } => self.compile_load(rd, rs1, imm, MemorySize::Byte, false),
            Instruction::Lhu { rd, rs1, imm } => self.compile_load(rd, rs1, imm, MemorySize::Half, false),
            Instruction::Sb { rs1, rs2, imm } => self.compile_store(rs1, rs2, imm, MemorySize::Byte),
            Instruction::Sh { rs1, rs2, imm } => self.compile_store(rs1, rs2, imm, MemorySize::Half),
            Instruction::Sw { rs1, rs2, imm } => self.compile_store(rs1, rs2, imm, MemorySize::Word),
            _ => {
                assert(false);
                Ok(())
            },
        }
    }

    // Branch and jump instructions
    #[verifier::rlimit(100)]
    fn compile_control(&mut self, inst: Instruction) -> (r: CompilerResult<()>)
        requires
            Self::is_control_op(inst),
            old(self).config.regfile_base <= u64::MAX - 124,
            old(self).rv_pc + 1 < 0x4000_0000,
        ensures
            r is Ok,
            final(self).compiled_one(old(self), inst),
    {
        proof {
            reveal(inst_code);
        }
        match inst {
            Instruction::Beq { rs1, rs2, imm } => self.compile_branch(rs1, rs2, imm, opcodes::JEQ),
            Instruction::Bne { rs1, rs2, imm } => self.compile_branch(rs1, rs2, imm, opcodes::JNE),
            Instruction::Blt { rs1, rs2, imm } => self.compile_branch(rs1, rs2, imm, opcodes::JSLT),
            Instruction::Bge { rs1, rs2, imm } => self.compile_branch(rs1, rs2, imm, opcodes::JSGE),
            Instruction::Bltu { rs1, rs2, imm } => self.compile_branch(rs1, rs2, imm, opcodes::JLT),
            Instruction::Bgeu { rs1, rs2, imm } => self.compile_branch(rs1, rs2, imm, opcodes::JGE),
            Instruction::Jal { rd, imm } => self.compile_jal(rd, imm),
            Instruction::Jalr { rd, rs1, imm } => self.compile_jalr(rd, rs1, imm),
            _ => {
                assert(false);
                Ok(())
            },
        }
    }

    // Upper-immediate, system and CSR instructions
    #[verifier::rlimit(100)]
    fn compile_system(&mut self, inst: Instruction) -> (r: CompilerResult<()>)
        requires
            Self::is_system_op(inst),
            old(self).config.regfile_base <= u64::MAX - 124,
            old(self).rv_pc + 1 < 0x4000_0000,
        ensures
            r is Ok,
            final(self).compiled_one(old(self), inst),
    {
        proof {
            reveal(inst_code);
        }
        match inst {
            Instruction::Lui { rd, imm } => self.compile_lui(rd, imm),
            Instruction::Auipc { rd, imm } => self.compile_auipc(rd, imm),
            Instruction::Ecall => self.compile_ecall(),
            Instruction::Ebreak => self.compile_ebreak(),
            Instruction::Csrrw { rd, rs1, csr } => self.compile_csr(rd, rs1, csr),
            Instruction::Csrrs { rd, rs1, csr } => self.compile_csr(rd, rs1, csr),
            Instruction::Csrrc { rd, rs1, csr } => self.compile_csr(rd, rs1, csr),
            Instruction::Csrrwi { rd, uimm: _, csr } => self.compile_csr_imm(rd, csr),
            Instruction::Csrrsi { rd, uimm: _, csr } => self.compile_csr_imm(rd, csr),
            Instruction::Csrrci { rd, uimm: _, csr } => self.compile_csr_imm(rd, csr),
            _ => {
                assert(false);
                Ok(())
            },
        }
    }

    /// Compile a single RISC-V instruction
    fn compile_instruction(&mut self, inst: Instruction) -> (r: CompilerResult<()>)
        requires
            old(self).config.regfile_base <= u64::MAX - 124,
            old(self).rv_pc + 1 < 0x4000_0000,
        ensures
            final(self).config == old(self).config,
            match inst {
                Instruction::Unknown(w) => match r {
                    Err(CompilerError::UnsupportedInstruction(m)) => m@ == "0x"@ + hex_fixed_text(w as nat, 8),
                    _ => false,
                },
                _ => r is Ok && final(self).compiled_one(old(self), inst),
            },
    {
        match inst {
            Instruction::Add { .. }
            | Instruction::Sub { .. }
            | Instruction::Xor { .. }
            | Instruction::Or { .. }
            | Instruction::And { .. }
            | Instruction::Sll { .. }
            | Instruction::Srl { .. }
            | Instruction::Sra { .. }
            | Instruction::Slt { .. }
            | Instruction::Sltu { .. } => self.compile_register_op(inst),
            Instruction::Mul { .. }
            | Instruction::Mulh { .. }
            | Instruction::Mulhsu { .. }
            | Instruction::Mulhu { .. }
            | Instruction::Div { .. }
            | Instruction::Divu { .. }
            | Instruction::Rem { .. }
            | Instruction::Remu { .. } => self.compile_muldiv_op(inst),
            Instruction::Addi { .. }
            | Instruction::Xori { .. }
            | Instruction::Ori { .. }
            | Instruction::Andi { .. }
            | Instruction::Slli { .. }
            | Instruction::Srli { .. }
            | Instruction::Srai { .. }
            | Instruction::Slti { .. }
            | Instruction::Sltiu { .. } => self.compile_immediate_op(inst),
            Instruction::Lb { .. }
            | Instruction::Lh { .. }
            | Instruction::Lw { .. }
            | Instruction::Lbu { .. }
            | Instruction::Lhu { .. }
            | Instruction::Sb { .. }
            | Instruction::Sh { .. }
            | Instruction::Sw { .. } => self.compile_memory_op(inst),
            Instruction::Beq { .. }
            | Instruction::Bne { .. }
            | Instruction::Blt { .. }
            | Instruction::Bge { .. }
            | Instruction::Bltu { .. }
            | Instruction::Bgeu { .. }
            | Instruction::Jal { .. }
            | Instruction::Jalr { .. } => self.compile_control(inst),
            Instruction::Fence { .. } | Instruction::FenceI => {
                // Fence instructions are no-ops in our single-threaded model
                proof {
                    reveal(inst_code);
                }
                assert(self.output.instructions@ =~= old(self).output.instructions@ + inst_code(self.config, inst, self.rv_pc as int));
                Ok(())
            },
            Instruction::Unknown(word) => {
                let mut message = String::from_str("0x");
                push_hex_fixed(&mut message, word as u64, 8);
                Err(CompilerError::UnsupportedInstruction(message))
            },
            _ => self.compile_system(inst),
        }
    }

    // Fix up branch offsets
    fn fixup_branches(&mut self) -> (r: CompilerResult<()>)
        requires
            old(self).output.instructions@.len() < 0x8_0000_0000,
            forall|m: int| 0 <= m < old(self).branch_fixups@.len()
                ==> #[trigger] old(self).branch_fixups@[m].0 < old(self).output.instructions@.len(),
            forall|m: int| 0 <= m < old(self).pc_map@.len() ==> #[trigger] old(self).pc_map@[m] < 0x8_0000_0000,
        ensures
            final(self).only_output_changed(old(self)),
            match resolve(old(self).output.instructions@, old(self).branch_fixups@, old(self).pc_map@) {
                Ok(q) => r is Ok && final(self).output.instructions@ == q,
                Err(t) => r matches Err(CompilerError::InvalidBranchTarget(u)) && u == t,
            },
    {
        let ghost p = self.output.instructions@;
        let ghost fixups = self.branch_fixups@;
        let ghost map = self.pc_map@;
        let mut i: usize = 0;
        while i < self.branch_fixups.len()
            invariant
                self.only_output_changed(old(self)),
                fixups == self.branch_fixups@,
                map == self.pc_map@,
                p == old(self).output.instructions@,
                p.len() < 0x8_0000_0000,
                forall|m: int| 0 <= m < fixups.len() ==> #[trigger] fixups[m].0 < p.len(),
                forall|m: int| 0 <= m < map.len() ==> #[trigger] map[m] < 0x8_0000_0000,
                0 <= i <= fixups.len(),
                resolve(p, fixups.take(i as int), map) == Ok::<Seq<SvmInstruction>, i32>(self.output.instructions@),
            decreases fixups.len() - i,
        {
            proof {
                lemma_resolve_next(p, fixups, map, i as int);
                lemma_resolve_len(p, fixups.take(i as int), map);
            }
            let (jmp_idx, target_rv_idx) = self.branch_fixups[i];
            if target_rv_idx >= self.pc_map.len() {
                proof {
                    lemma_resolve_stops(p, fixups, map, i + 1);
                }
                return Err(CompilerError::InvalidBranchTarget(target_rv_idx as i32));
            }
            let target_svm_idx = self.pc_map[target_rv_idx];
            // Calculate offset: target - (current + 1)
            let offset = (target_svm_idx as i64) - (jmp_idx as i64) - 1;
            if offset < i16::MIN as i64 || offset > i16::MAX as i64 {
                proof {
                    lemma_resolve_stops(p, fixups, map, i + 1);
                }
                return Err(CompilerError::InvalidBranchTarget(target_rv_idx as i32));
            }
            self.set_offset(jmp_idx, offset as i16);
            i = i + 1;
        }
        proof {
            assert(fixups.take(fixups.len() as int) =~= fixups);
        }
        Ok(())
    }

    /// Emit return dispatch table for JALR instructions
    ///
    /// This creates a series of comparisons against known return sites
    /// and jumps to the appropriate SVM instruction.
    fn emit_return_dispatch(&mut self) -> (r: CompilerResult<()>)
        requires
            old(self).config.regfile_base <= u64::MAX - 124,
            old(self).output.instructions@.len() < 0x8_0000_0000,
            old(self).return_sites@.len() < 0x4000_0000,
            forall|m: int| 0 <= m < old(self).return_sites@.len() ==> #[trigger] old(self).return_sites@[m] < 0x4000_0000,
            forall|m: int| 0 <= m < old(self).jalr_fixups@.len()
                ==> #[trigger] old(self).jalr_fixups@[m] < old(self).output.instructions@.len(),
            forall|m: int| 0 <= m < old(self).pc_map@.len() ==> #[trigger] old(self).pc_map@[m] < 0x8_0000_0000,
        ensures
            final(self).only_output_changed(old(self)),
            ({
                let p = old(self).output.instructions@;
                let start = p.len() as int;
                if old(self).jalr_fixups@.len() == 0 {
                    r is Ok && final(self).output.instructions@ == p
                } else {
                    match dispatch_table(old(self).config, old(self).return_sites@, start, old(self).pc_map@) {
                        Err(t) => r matches Err(CompilerError::InvalidBranchTarget(u)) && u == t,
                        Ok(d) => match resolve_indirect(
                            p + d + seq![SvmInstruction::exit()],
                            old(self).jalr_fixups@,
                            start,
                        ) {
                            Err(t) => r matches Err(CompilerError::InvalidBranchTarget(u)) && u == t,
                            Ok(q) => r is Ok && final(self).output.instructions@ == q,
                        },
                    }
                }
            }),
    {
        if self.jalr_fixups.len() == 0 {
            return Ok(());
        }
        let ghost p = self.output.instructions@;
        let ghost sites = self.return_sites@;
        let ghost map = self.pc_map@;
        // Record start of dispatch table
        let dispatch_start = self.output.len();
        // R1 contains the target byte address from JALR
        // First check for 0 (exit)
        // First check for 0: return a0 and exit
        self.emit(SvmInstruction::jmp_imm(opcodes::JNE, SvmRegister::R1, 0, 5));
        self.emit_epilogue();
        proof {
            assert(sites.take(0) =~= Seq::<usize>::empty());
            assert(self.output.instructions@.subrange(0, dispatch_start as int) =~= p);
            assert(self.output.instructions@.subrange(dispatch_start as int, self.output.instructions@.len() as int) =~= seq![
                SvmInstruction::jmp_imm(opcodes::JNE, SvmRegister::R1, 0, 5),
            ] + epilogue(self.config));
        }
        // For each return site, emit comparison and jump
        let mut i: usize = 0;
        while i < self.return_sites.len()
            invariant
                self.only_output_changed(old(self)),
                sites == self.return_sites@,
                map == self.pc_map@,
                self.jalr_fixups@.len() > 0,
                p == old(self).output.instructions@,
                dispatch_start == p.len(),
                p.len() < 0x8_0000_0000,
                sites.len() < 0x4000_0000,
                forall|m: int| 0 <= m < sites.len() ==> #[trigger] sites[m] < 0x4000_0000,
                forall|m: int| 0 <= m < map.len() ==> #[trigger] map[m] < 0x8_0000_0000,
                0 <= i <= sites.len(),
                self.output.instructions@.len() == p.len() + 6 + 2 * i,
                self.config == old(self).config,
                self.output.instructions@.subrange(0, dispatch_start as int) == p,
                dispatch_table(self.config, sites.take(i as int), dispatch_start as int, map)
                    == Ok::<Seq<SvmInstruction>, i32>(self.output.instructions@.subrange(dispatch_start as int, self.output.instructions@.len() as int)),
            decreases sites.len() - i,
        {
            proof {
                lemma_dispatch_next(self.config, sites, dispatch_start as int, map, i as int);
            }
            let return_rv_idx = self.return_sites[i];
            if return_rv_idx >= self.pc_map.len() {
                proof {
                    lemma_dispatch_stops(self.config, sites, dispatch_start as int, map, i + 1);
                }
                return Err(CompilerError::InvalidBranchTarget(return_rv_idx as i32));
            }
            let return_byte_addr = self.byte_address_of(return_rv_idx);
            let target_svm_idx = self.pc_map[return_rv_idx];
            let ghost before = self.output.instructions@;
            // Compare R1 with return address
            self.emit(SvmInstruction::jmp_imm(opcodes::JNE, SvmRegister::R1, return_byte_addr, 1));
            // Jump to the target SVM instruction
            let jmp_idx = self.output.len();
            let offset = (target_svm_idx as i64) - (jmp_idx as i64) - 1;
            if offset < i16::MIN as i64 || offset > i16::MAX as i64 {
                proof {
                    lemma_dispatch_stops(self.config, sites, dispatch_start as int, map, i + 1);
                }
                return Err(CompilerError::InvalidBranchTarget(return_rv_idx as i32));
            }
            self.emit(SvmInstruction::ja(offset as i16));
            proof {
                let out = self.output.instructions@;
                assert(out.subrange(0, dispatch_start as int) =~= p);
                assert(out.subrange(dispatch_start as int, out.len() as int) =~= before.subrange(
                    dispatch_start as int,
                    before.len() as int,
                ) + seq![
                    SvmInstruction::jmp_imm(opcodes::JNE, SvmRegister::R1, byte_address(self.config, return_rv_idx as int), 1),
                    SvmInstruction::ja(offset as i16),
                ]);
            }
            i = i + 1;
        }
        let ghost d = self.output.instructions@.subrange(dispatch_start as int, self.output.instructions@.len() as int);
        proof {
            assert(sites.take(sites.len() as int) =~= sites);
            assert(self.output.instructions@ =~= p + d);
        }
        // If no match found, exit (shouldn't happen in well-formed programs)
        self.emit(SvmInstruction::exit());
        let ghost base = self.output.instructions@;
        let ghost ats = self.jalr_fixups@;
        proof {
            assert(base =~= p + d + seq![SvmInstruction::exit()]);
            assert(ats.take(0) =~= Seq::<usize>::empty());
        }
        // Fix up all JALR jumps to point to dispatch table
        let mut j: usize = 0;
        while j < self.jalr_fixups.len()
            invariant
                self.only_output_changed(old(self)),
                ats == self.jalr_fixups@,
                ats.len() > 0,
                dispatch_table(old(self).config, old(self).return_sites@, dispatch_start as int, old(self).pc_map@)
                    == Ok::<Seq<SvmInstruction>, i32>(d),
                base == p + d + seq![SvmInstruction::exit()],
                p == old(self).output.instructions@,
                dispatch_start == p.len(),
                p.len() < 0x8_0000_0000,
                forall|m: int| 0 <= m < ats.len() ==> #[trigger] ats[m] < p.len(),
                base.len() > p.len(),
                self.output.instructions@.len() == base.len(),
                0 <= j <= ats.len(),
                resolve_indirect(base, ats.take(j as int), dispatch_start as int)
                    == Ok::<Seq<SvmInstruction>, i32>(self.output.instructions@),
            decreases ats.len() - j,
        {
            proof {
                lemma_resolve_indirect_next(base, ats, dispatch_start as int, j as int);
            }
            let jmp_idx = self.jalr_fixups[j];
            let offset = (dispatch_start as i64) - (jmp_idx as i64) - 1;
            if offset < i16::MIN as i64 || offset > i16::MAX as i64 {
                proof {
                    lemma_resolve_indirect_stops(base, ats, dispatch_start as int, j + 1);
                }
                return Err(CompilerError::InvalidBranchTarget(dispatch_start as i32));
            }
            self.set_offset(jmp_idx, offset as i16);
            j = j + 1;
        }
        proof {
            assert(ats.take(ats.len() as int) =~= ats);
        }
        Ok(())
    }

    /// Compile a sequence of RISC-V instructions
    pub fn compile(&mut self, instructions: &[Instruction]) -> (r: CompilerResult<SvmProgram>)
        requires
            config_fits(old(self).configuration()),
        ensures
            final(self).configuration() == old(self).configuration(),
            instructions@.len() >= 0x4000_0000 ==> (r matches Err(CompilerError::ProgramTooLarge(m))
                && m == instructions@.len()),
            instructions@.len() < 0x4000_0000 ==> compiled_as(
                r,
                compile_outcome(old(self).configuration(), instructions@),
            ),
    {
        if instructions.len() >= 0x4000_0000 {
            return Err(CompilerError::ProgramTooLarge(instructions.len()));
        }
        let ghost c = self.config;
        let ghost instrs = instructions@;
        self.rv_instructions = vstd::slice::slice_to_vec(instructions);
        self.output = SvmProgram::new();
        self.pc_map = Vec::new();
        self.branch_fixups = Vec::new();
        self.return_sites = Vec::new();
        self.jalr_fixups = Vec::new();
        // First pass: emit prologue
        self.emit_prologue();
        // Second pass: compile each instruction
        let mut idx: usize = 0;
        while idx < instructions.len()
            invariant
                self.config == c,
                c == old(self).config,
                instrs == instructions@,
                compilable(c, instrs.len()),
                0 <= idx <= instrs.len(),
                self.output.instructions@ == code_upto(c, instrs, idx as nat),
                self.pc_map@.len() == idx,
                forall|i: int| 0 <= i < idx ==> #[trigger] self.pc_map@[i] == start_of(c, instrs, i as nat),
                self.branch_fixups@ == direct_jumps(c, instrs, idx as nat),
                self.return_sites@ == return_sites(instrs, idx as nat),
                self.jalr_fixups@ == indirect_jumps(c, instrs, idx as nat),
                first_unknown(instrs, idx as nat) is None,
            decreases instrs.len() - idx,
        {
            self.rv_pc = idx;
            // Record PC mapping before emitting
            self.pc_map.push(self.output.len());
            let r = self.compile_instruction(instructions[idx]);
            if let Err(e) = r {
                proof {
                    lemma_first_unknown_stays(instrs, (idx + 1) as nat, instrs.len());
                }
                return Err(e);
            }
            idx = idx + 1;
        }
        // Record the "end" position for branches that jump past the last instruction
        self.pc_map.push(self.output.len());
        let ghost n = instrs.len();
        let ghost map = position_map(c, instrs);
        proof {
            lemma_code_upto(c, instrs, n);
            lemma_jumps_in_code(c, instrs, n);
            assert forall|i: int| 0 <= i <= n implies #[trigger] self.pc_map@[i] == map[i] by {
                lemma_code_upto(c, instrs, n);
                assert(start_of(c, instrs, i as nat) <= start_of(c, instrs, n));
            }
            assert(self.pc_map@ =~= map);
        }
        // Third pass: fix up branches
        self.fixup_branches()?;
        let ghost p1 = self.output.instructions@;
        proof {
            lemma_resolve_len(code_upto(c, instrs, n), direct_jumps(c, instrs, n), map);
        }
        // Fourth pass: emit return dispatch table if needed
        self.emit_return_dispatch()?;
        // Emit epilogue (return)
        self.emit_epilogue();
        let mut out = SvmProgram::new();
        std::mem::swap(&mut out, &mut self.output);
        Ok(out)
    }

    /// Compile RISC-V binary (array of 32-bit words)
    pub fn compile_binary(&mut self, binary: &[u32]) -> (r: CompilerResult<SvmProgram>)
        requires
            config_fits(old(self).configuration()),
        ensures
            final(self).configuration() == old(self).configuration(),
            binary@.len() >= 0x4000_0000 ==> (r matches Err(CompilerError::ProgramTooLarge(m))
                && m == binary@.len()),
            binary@.len() < 0x4000_0000 ==> compiled_as(
                r,
                compile_outcome(old(self).configuration(), binary@.map_values(|w: u32| decode_spec(w))),
            ),
    {
        let mut instructions: Vec<Instruction> = Vec::new();
        let mut i: usize = 0;
        while i < binary.len()
            invariant
                0 <= i <= binary@.len(),
                instructions@ =~= binary@.take(i as int).map_values(|w: u32| decode_spec(w)),
            decreases binary@.len() - i,
        {
            instructions.push(decode(binary[i]));
            i = i + 1;
        }
        proof {
            assert(binary@.take(binary@.len() as int) =~= binary@);
        }
        self.compile(instructions.as_slice())
    }
}

impl Default for Compiler {
    fn default() -> (c: Self)
        ensures
            c.configuration() == default_config(),
    {
        Self::new()
    }
}

} // verus!
