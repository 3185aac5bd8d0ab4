//! What compiled programs compute: the value RISC-V returns from them, for
//! programs made of the instructions whose compiled code is followed here.

use vstd::prelude::*;
use crate::riscv::instruction::{lemma_register_index_injective, Instruction, Register};
use crate::svm::semantics::MachineState;
use crate::svm::bytecode::SvmInstruction;
use super::execution::{
    access_of, after, branch_operands, branch_taken, can_run, code_at, effective_address,
    lemma_after_compose, lemma_branch_runs, lemma_jal_runs, lemma_load_runs_memory,
    lemma_store_runs_memory, load_operands, load_result, store_operands, lemma_after_run, lemma_ecall_runs, lemma_prologue_runs,
    sign_extended, compare_holds, compare_immediate_holds, compare_immediate_operands,
    compare_result, constant_result, immediate_op_result, immediate_operands, lemma_compare_immediate_runs,
    lemma_compare_runs, lemma_constant_runs, lemma_immediate_op_runs, lemma_register_op_runs,
    lemma_shift_register_runs, lemma_shift_runs, register_file_fits, register_op_result,
    register_operands, rv_value, set_steps, shift_operands, shift_result, division_operands,
    division_result, lemma_division_runs, lemma_remainder_runs, high_operands, high_product,
    lemma_high_product_runs, jalr_operands, lemma_jalr_register, lemma_jalr_runs, lemma_dispatch_runs, lemma_dispatch_exits,
};
use super::templates::{
    code_upto, compile_outcome, direct_jumps, epilogue, first_unknown, indirect_jumps, inst_code,
    is_direct_jump, jump_target_index, lemma_code_upto, lemma_jumps_in_code, lemma_resolve_len,
    position_map, prologue, resolve, start_of, Compiled, return_sites, byte_address, return_address,
};
use crate::svm::semantics::signed32;
use super::control_flow::{
    last_of, lemma_compiled_code_stands, lemma_compiled_jump_code,
    lemma_compiled_prologue, lemma_compiled_dispatch, lemma_compiled_jumps_land,
};
use super::execution::lemma_ebreak_runs;
use crate::svm::semantics::{in_bounds, lemma_run_limit, read_at, run, written_at, Effect};
use crate::svm::bytecode::MemorySize;
use crate::svm::little_endian::{le_bytes, lemma_value_of_bytes};
use super::templates::reg_addr;
use super::translator::default_config;
use super::templates::config_fits;
use crate::svm::interpreter::SvmError;
use crate::svm::semantics::started;
use crate::{executed, execution_machine, run_result};
use super::translator::CompilerConfig;

verus! {

/// The instructions whose code runs straight through to the next instruction's:
/// the register and immediate ALU operations, shifts and comparisons, LUI, AUIPC,
/// the CSR instructions and the fences.
pub open spec fn is_straight(inst: Instruction) -> bool {
    ||| inst is Add || inst is Sub || inst is Xor || inst is Or || inst is And || inst is Mul
    ||| inst is Sll || inst is Srl || inst is Sra || inst is Slt || inst is Sltu
    ||| inst is Addi || inst is Xori || inst is Ori || inst is Andi
    ||| inst is Slli || inst is Srli || inst is Srai || inst is Slti || inst is Sltiu
    ||| inst is Lui || inst is Auipc
    ||| inst is Csrrw || inst is Csrrs || inst is Csrrc || inst is Csrrwi || inst is Csrrsi || inst is Csrrci
    ||| inst is Fence || inst is FenceI
}

/// The value such an instruction at index `idx` writes to its destination, from
/// the RISC-V register values `regs` (indexed by register number).
pub open spec fn straight_result(c: CompilerConfig, inst: Instruction, regs: Seq<u32>, idx: int) -> u32 {
    if inst is Add || inst is Sub || inst is Xor || inst is Or || inst is And || inst is Mul {
        let (_, rs1, rs2) = register_operands(inst);
        register_op_result(inst, regs[rs1.index() as int], regs[rs2.index() as int])
    } else if inst is Sll || inst is Srl || inst is Sra {
        let (_, rs1, rs2) = register_operands(inst);
        shift_result(inst, regs[rs1.index() as int], regs[rs2.index() as int])
    } else if inst is Slt || inst is Sltu {
        let (_, rs1, rs2) = register_operands(inst);
        compare_result(inst, regs[rs1.index() as int], regs[rs2.index() as int])
    } else if inst is Addi || inst is Xori || inst is Ori || inst is Andi {
        let (_, rs1, imm) = immediate_operands(inst);
        immediate_op_result(inst, regs[rs1.index() as int], imm)
    } else if inst is Slli || inst is Srli || inst is Srai {
        let (_, rs1, shamt) = shift_operands(inst);
        shift_result(inst, regs[rs1.index() as int], shamt)
    } else if inst is Slti || inst is Sltiu {
        let (_, rs1, imm) = compare_immediate_operands(inst);
        compare_result(inst, regs[rs1.index() as int], imm as u32)
    } else {
        constant_result(c, inst, idx)
    }
}

/// The RISC-V registers after running such an instruction: its destination gets
/// its result, unless that is `x0`.
pub open spec fn rv_step(c: CompilerConfig, inst: Instruction, regs: Seq<u32>, idx: int) -> Seq<u32> {
    match inst.dest() {
        Some(rd) => if rd != Register::ZERO {
            regs.update(rd.index() as int, straight_result(c, inst, regs, idx))
        } else {
            regs
        },
        None => regs,
    }
}

/// The RISC-V registers after the first `k` instructions of `instrs`, from `init`.
pub open spec fn rv_registers(c: CompilerConfig, instrs: Seq<Instruction>, init: Seq<u32>, k: nat) -> Seq<u32>
    decreases k,
{
    if k == 0 {
        init
    } else {
        rv_step(c, instrs[k - 1], rv_registers(c, instrs, init, (k - 1) as nat), k - 1)
    }
}

/// The register file in `memory` holds the values `regs` (`x0` holds 0).
pub open spec fn file_holds(c: CompilerConfig, memory: Seq<u8>, regs: Seq<u32>) -> bool {
    &&& regs.len() == 32
    &&& regs[0] == 0
    &&& forall|r: Register| #[trigger] rv_value(c, memory, r) == regs[r.index() as int]
}

/// What the run of a straight instruction's code keeps, beyond the RISC-V registers.
pub open spec fn straight_kept(c: CompilerConfig, s: MachineState, t: MachineState) -> bool {
    &&& forall|j: int| 0 <= j < s.memory.len() && !(c.regfile_base <= j < c.regfile_base + 128)
        ==> #[trigger] t.memory[j] == s.memory[j]
    &&& t.registers.len() == 11
    &&& t.registers[10] == s.registers[10]
    &&& t.registers[0] == s.registers[0]
    &&& t.memory.len() == s.memory.len()
    &&& t.compute_limit == s.compute_limit
    &&& t.stack_base == s.stack_base
    &&& !t.halted
    &&& t.compute_units <= s.compute_units + 40
}

/// Running the code compiled for a straight instruction, from its first
/// instruction, takes the registers the file holds to `rv_step` of them and ends at
/// the instruction after that code; `steps` is how many instructions it runs.
pub proof fn lemma_straight_runs(
    c: CompilerConfig,
    p: Seq<SvmInstruction>,
    s: MachineState,
    inst: Instruction,
    idx: int,
    regs: Seq<u32>,
) -> (steps: nat)
    requires
        is_straight(inst),
        code_at(p, s.pc as int, inst_code(c, inst, idx)),
        can_run(s, p, 40),
        register_file_fits(c, s.memory),
        file_holds(c, s.memory, regs),
    ensures
        after(s, p, steps) is Some,
        ({
            let t = after(s, p, steps)->Some_0;
            &&& t.pc == s.pc + inst_code(c, inst, idx).len()
            &&& file_holds(c, t.memory, rv_step(c, inst, regs, idx))
            &&& straight_kept(c, s, t)
        }),
{
    let k = inst_code(c, inst, idx).len();
    let steps: nat = if inst is Slt || inst is Sltu {
        lemma_compare_runs(c, p, s, inst, idx);
        set_steps(k, compare_holds(c, s.memory, inst))
    } else if inst is Slti || inst is Sltiu {
        lemma_compare_immediate_runs(c, p, s, inst, idx);
        set_steps(k, compare_immediate_holds(c, s.memory, inst))
    } else if inst is Fence || inst is FenceI {
        reveal(inst_code);
        assert(after(s, p, 0) == Some(s));
        0
    } else {
        if inst is Add || inst is Sub || inst is Xor || inst is Or || inst is And || inst is Mul {
            lemma_register_op_runs(c, p, s, inst, idx);
        } else if inst is Sll || inst is Srl || inst is Sra {
            lemma_shift_register_runs(c, p, s, inst, idx);
        } else if inst is Addi || inst is Xori || inst is Ori || inst is Andi {
            lemma_immediate_op_runs(c, p, s, inst, idx);
        } else if inst is Slli || inst is Srli || inst is Srai {
            lemma_shift_runs(c, p, s, inst, idx);
        } else {
            lemma_constant_runs(c, p, s, inst, idx);
        }
        k
    };
    let t = after(s, p, steps)->Some_0;
    let next = rv_step(c, inst, regs, idx);
    if inst is Fence || inst is FenceI {
        assert(next == regs);
    } else {
        let rd = inst.dest()->Some_0;
        assert forall|r: Register| #[trigger] rv_value(c, t.memory, r) == next[r.index() as int] by {
            lemma_register_index_injective(r, rd);
        }
        if rd != Register::ZERO {
            lemma_register_index_injective(rd, Register::ZERO);
        }
    }
    steps
}

/// Straight instructions and ECALLs are known instructions and leave no jump to
/// resolve.
proof fn lemma_no_jumps(c: CompilerConfig, instrs: Seq<Instruction>, k: nat)
    requires
        k <= instrs.len(),
        forall|i: int| 0 <= i < k ==> is_straight(#[trigger] instrs[i]) || instrs[i] is Ecall,
    ensures
        first_unknown(instrs, k) is None,
        direct_jumps(c, instrs, k).len() == 0,
        indirect_jumps(c, instrs, k).len() == 0,
    decreases k,
{
    if k > 0 {
        lemma_no_jumps(c, instrs, (k - 1) as nat);
        assert(is_straight(instrs[k - 1]) || instrs[k - 1] is Ecall);
    }
}

/// In the program compiled from such instructions, the code of each stands where
/// its code starts.
proof fn lemma_code_in_program(c: CompilerConfig, instrs: Seq<Instruction>, p: Seq<SvmInstruction>, k: int)
    requires
        p == code_upto(c, instrs, instrs.len()) + epilogue(c),
        0 <= k < instrs.len(),
    ensures
        code_at(p, start_of(c, instrs, k as nat) as int, inst_code(c, instrs[k], k)),
{
    let n = instrs.len();
    let own = inst_code(c, instrs[k], k);
    let start = start_of(c, instrs, k as nat) as int;
    lemma_code_upto(c, instrs, n);
    let upto = code_upto(c, instrs, (k + 1) as nat);
    assert(upto == code_upto(c, instrs, k as nat) + own);
    assert(start_of(c, instrs, (k + 1) as nat) <= start_of(c, instrs, n));
    let code = code_upto(c, instrs, n);
    assert forall|i: int| 0 <= i < own.len() implies #[trigger] p[start + i] == own[i] by {
        assert(code.subrange(0, start_of(c, instrs, (k + 1) as nat) as int) == upto);
        assert(code[start + i] == code.subrange(0, start_of(c, instrs, (k + 1) as nat) as int)[start + i]);
        assert(upto[start + i] == own[i]);
        assert(p[start + i] == code[start + i]);
    }
}

/// Running the code of the first `k` straight instructions of such a program, from
/// where the first one's code starts, takes the registers the file holds from
/// `init` to `rv_registers(c, instrs, init, k)`.
proof fn lemma_straight_prefix(
    c: CompilerConfig,
    instrs: Seq<Instruction>,
    p: Seq<SvmInstruction>,
    s: MachineState,
    init: Seq<u32>,
    k: nat,
) -> (steps: nat)
    requires
        p == code_upto(c, instrs, instrs.len()) + epilogue(c),
        k < instrs.len(),
        forall|i: int| 0 <= i < k ==> is_straight(#[trigger] instrs[i]),
        s.pc == start_of(c, instrs, 0),
        can_run(s, p, 40 * k),
        register_file_fits(c, s.memory),
        file_holds(c, s.memory, init),
    ensures
        after(s, p, steps) is Some,
        ({
            let t = after(s, p, steps)->Some_0;
            &&& t.pc == start_of(c, instrs, k)
            &&& file_holds(c, t.memory, rv_registers(c, instrs, init, k))
            &&& t.registers.len() == 11
            &&& t.registers[10] == s.registers[10]
            &&& t.memory.len() == s.memory.len()
            &&& t.compute_limit == s.compute_limit
            &&& t.stack_base == s.stack_base
            &&& !t.halted
            &&& t.compute_units <= s.compute_units + 40 * k
        }),
    decreases k,
{
    if k == 0 {
        assert(after(s, p, 0) == Some(s));
        0
    } else {
        let j = (k - 1) as nat;
        let first = lemma_straight_prefix(c, instrs, p, s, init, j);
        let m = after(s, p, first)->Some_0;
        lemma_code_in_program(c, instrs, p, j as int);
        assert(is_straight(instrs[j as int]));
        let second = lemma_straight_runs(c, p, m, instrs[j as int], j as int, rv_registers(c, instrs, init, j));
        lemma_after_compose(s, p, first, second);
        assert(code_upto(c, instrs, k) == code_upto(c, instrs, j) + inst_code(c, instrs[j as int], j as int));
        first + second
    }
}

/// The RISC-V registers a compiled program starts with: `sp` holds the stack base,
/// every other register 0.
pub open spec fn initial_registers(c: CompilerConfig) -> Seq<u32> {
    Seq::new(32, |i: int| if i == 2 { c.stack_base as u32 } else { 0u32 })
}

/// A program of straight instructions that ends with an ECALL, compiled with the
/// default configuration and run by `execute`, returns the value that RISC-V leaves
/// in `a0`, sign-extended to 64 bits, starting from the registers
/// `initial_registers`.
pub proof fn lemma_straight_program_returns(instrs: Seq<Instruction>)
    requires
        1 <= instrs.len() <= 20_000,
        instrs.last() == Instruction::Ecall,
        forall|k: int| 0 <= k < instrs.len() - 1 ==> is_straight(#[trigger] instrs[k]),
    ensures
        compile_outcome(default_config(), instrs) matches Compiled::Program(p) && executed(p) == Some(
            Ok::<u64, SvmError>(sign_extended(rv_registers(
                default_config(),
                instrs,
                initial_registers(default_config()),
                (instrs.len() - 1) as nat,
            )[10])),
        ),
{
    let c = default_config();
    let n = instrs.len();
    let last = (n - 1) as nat;
    lemma_no_jumps(c, instrs, n);
    let code = code_upto(c, instrs, n);
    let p = code + epilogue(c);
    assert(resolve(code, direct_jumps(c, instrs, n), position_map(c, instrs)) == Ok::<Seq<SvmInstruction>, i32>(code));
    assert(compile_outcome(c, instrs) == Compiled::Program(p));
    lemma_code_upto(c, instrs, n);
    assert(p.len() == start_of(c, instrs, n) + 5);
    // the prologue
    let s = started(execution_machine());
    assert(code_at(p, 0, prologue(c))) by {
        assert(code.subrange(0, start_of(c, instrs, 0) as int) == prologue(c));
        assert forall|i: int| 0 <= i < 3 implies #[trigger] p[0 + i] == prologue(c)[i] by {
            assert(p[i] == code[i]);
            assert(code[i] == code.subrange(0, 3)[i]);
        }
    }
    lemma_prologue_runs(c, p, s);
    let s0 = after(s, p, 3)->Some_0;
    let init = initial_registers(c);
    assert(file_holds(c, s0.memory, init)) by {
        assert forall|r: Register| #[trigger] rv_value(c, s0.memory, r) == init[r.index() as int] by {
            lemma_register_index_injective(r, Register::SP);
        }
    }
    // the straight instructions
    let steps = lemma_straight_prefix(c, instrs, p, s0, init, last);
    lemma_after_compose(s, p, 3, steps);
    let s1 = after(s0, p, steps)->Some_0;
    // the ECALL
    lemma_code_in_program(c, instrs, p, last as int);
    lemma_ecall_runs(c, p, s1, last as int);
    lemma_after_run(s, p, 3 + steps);
    assert(rv_value(c, s1.memory, Register::A0) == rv_registers(c, instrs, init, last)[10]);
}

/// The loads and stores.
pub open spec fn is_memory_access(inst: Instruction) -> bool {
    inst is Lb || inst is Lh || inst is Lw || inst is Lbu || inst is Lhu || inst is Sb || inst is Sh || inst is Sw
}

/// The divisions and remainders.
pub open spec fn is_division(inst: Instruction) -> bool {
    inst is Div || inst is Divu || inst is Rem || inst is Remu
}

/// The multiplications that give the high word of the product.
pub open spec fn is_high_multiply(inst: Instruction) -> bool {
    inst is Mulh || inst is Mulhsu || inst is Mulhu
}

/// The instructions whose compiled code this module follows: the straight ones,
/// the divisions and remainders, the multiplications that give a high word, the
/// loads and stores, the branches, JAL, JALR, ECALL and EBREAK: all but the
/// unknown words.
pub open spec fn is_supported(inst: Instruction) -> bool {
    ||| is_straight(inst) || is_division(inst) || is_high_multiply(inst)
    ||| is_memory_access(inst) || is_direct_jump(inst) || inst is Jalr || inst is Ecall || inst is Ebreak
}

/// The program has a JALR.
pub open spec fn has_jalr(instrs: Seq<Instruction>) -> bool {
    exists|i: int| 0 <= i < instrs.len() && #[trigger] instrs[i] is Jalr
}

/// The instruction at index `j` follows a JAL that saves its return address (a JAL
/// whose destination is not `x0`): a JALR of the compiled program can return there.
pub open spec fn is_return_site(instrs: Seq<Instruction>, j: int) -> bool {
    &&& 1 <= j <= instrs.len()
    &&& instrs[j - 1] matches Instruction::Jal { rd, .. }
    &&& rd != Register::ZERO
}

/// The compute units the code of one instruction of `instrs` may take, the
/// dispatch table that a JALR runs through included.
pub open spec fn step_budget(instrs: Seq<Instruction>) -> nat {
    if has_jalr(instrs) {
        82 + 2 * instrs.len()
    } else {
        80
    }
}

/// Instructions of a program that a 32-bit address space holds have distinct byte
/// addresses.
proof fn lemma_byte_address_injective(c: CompilerConfig, a: int, b: int)
    requires
        0 <= a < 0x4000_0000,
        0 <= b < 0x4000_0000,
        byte_address(c, a) == byte_address(c, b),
    ensures
        a == b,
{
    let x = vstd::wrapping::u32_specs::wrapping_add(c.initial_pc, (a * 4) as u32);
    let y = vstd::wrapping::u32_specs::wrapping_add(c.initial_pc, (b * 4) as u32);
    assert(x as i32 == y as i32);
    assert(x == y) by (bit_vector)
        requires
            x as i32 == y as i32,
    ;
}

/// Zero sign-extended is zero.
proof fn lemma_word_zero()
    ensures
        sign_extended(0) == 0,
{
    assert(sign_extended(0) == 0) by (bit_vector);
}

/// The budget for `fuel` instructions is that for one fewer and one more step.
proof fn lemma_budget(instrs: Seq<Instruction>, fuel: nat)
    requires
        fuel >= 1,
    ensures
        step_budget(instrs) >= 80,
        step_budget(instrs) * fuel == step_budget(instrs) * (fuel - 1) + step_budget(instrs),
        step_budget(instrs) * (fuel - 1) >= 0,
{
    let b = step_budget(instrs);
    assert(b * fuel == b * (fuel - 1) + b) by (nonlinear_arith);
    assert(b * (fuel - 1) >= 0) by (nonlinear_arith)
        requires
            b >= 0,
            fuel >= 1,
    ;
}

/// An access of `size` bytes at `a` lies in `memory` and outside the bytes where
/// the compiled program keeps the RISC-V registers (the 128 bytes from
/// `c.regfile_base`).
pub open spec fn access_allowed(c: CompilerConfig, memory: Seq<u8>, a: u64, size: MemorySize) -> bool {
    &&& in_bounds(memory, a, size) == Some(true)
    &&& ((a as usize) + size.bytes() <= c.regfile_base || (a as usize) >= c.regfile_base + 128)
}

/// `regs` with `rd` set to `v`, unless `rd` is `x0`.
pub open spec fn set_register(regs: Seq<u32>, rd: Register, v: u32) -> Seq<u32> {
    if rd != Register::ZERO {
        regs.update(rd.index() as int, v)
    } else {
        regs
    }
}

/// The RISC-V registers after running a supported instruction at index `k`, for a
/// program whose first instruction lies at `c.initial_pc` (a JAL writes its return
/// address, `return_address(c, k)`).
pub open spec fn rv_after(c: CompilerConfig, inst: Instruction, regs: Seq<u32>, k: int) -> Seq<u32> {
    match inst {
        Instruction::Jal { rd, .. } => if rd != Register::ZERO {
            regs.update(rd.index() as int, return_address(c, k) as u32)
        } else {
            regs
        },
        _ => if is_straight(inst) {
            rv_step(c, inst, regs, k)
        } else if is_division(inst) {
            let (rd, rs1, rs2) = division_operands(inst);
            set_register(regs, rd, division_result(inst, regs[rs1.index() as int], regs[rs2.index() as int]))
        } else if is_high_multiply(inst) {
            let (rd, rs1, rs2) = high_operands(inst);
            set_register(regs, rd, high_product(inst, regs[rs1.index() as int], regs[rs2.index() as int]))
        } else {
            regs
        },
    }
}

/// The index of the instruction RISC-V runs after the one at `k`: for a taken
/// branch and for a JAL, `k` plus the byte offset divided by four (rounded toward
/// zero).
pub open spec fn rv_next(inst: Instruction, regs: Seq<u32>, k: int) -> int {
    if inst is Jal {
        jump_target_index(inst, k) as int
    } else if is_direct_jump(inst) {
        let (rs1, rs2) = branch_operands(inst);
        if branch_taken(inst, regs[rs1.index() as int], regs[rs2.index() as int]) {
            jump_target_index(inst, k) as int
        } else {
            k + 1
        }
    } else {
        k + 1
    }
}

/// What a program of supported instructions, whose first instruction lies at the
/// byte address `c.initial_pc` and whose data address `a` lies at `a` plus
/// `c.memory_base` in `memory` (`effective_address`), returns when run from
/// instruction `k` with the registers `regs` and the memory `memory` for at most
/// `fuel`
/// instructions: the value of `a0` at the first ECALL, 0 at the first EBREAK
/// (which stops the program), or the value of `a0` where it runs to its end
/// (where the compiled program's epilogue returns it, if it has no JALR); nothing
/// if it needs more instructions, leaves the program, meets an instruction that is
/// not supported, makes a memory access that `access_allowed` does not allow, or
/// makes a JALR jump that the compiled program's dispatch table does not follow.
/// A JALR jumps to the sum of `rs1` and its offset with the lowest bit cleared;
/// the dispatch table follows it where that sum, read as signed, lies in
/// `[0, 2^31)` and the target is the byte address of a return site
/// (`is_return_site`). A JALR to address 0 ends the program with `a0` (after the
/// JALR has set its destination).
pub open spec fn rv_result(c: CompilerConfig, instrs: Seq<Instruction>, regs: Seq<u32>, memory: Seq<u8>, k: int, fuel: nat) -> Option<u32>
    decreases fuel,
{
    if k == instrs.len() {
        if has_jalr(instrs) {
            None
        } else {
            Some(regs[10])
        }
    } else if fuel == 0 || k < 0 || k > instrs.len() || !is_supported(instrs[k]) {
        None
    } else if instrs[k] is Ecall {
        Some(regs[10])
    } else if instrs[k] is Ebreak {
        Some(0)
    } else if instrs[k] is Jalr {
        let (rd, rs1, imm) = jalr_operands(instrs[k]);
        let sum = signed32(regs[rs1.index() as int]) + imm;
        let target = sum - sum % 2;
        if 0 <= sum < 0x8000_0000 && target == 0 {
            Some(set_register(regs, rd, return_address(c, k) as u32)[10])
        } else if 0 <= sum < 0x8000_0000 && exists|j: int|
            #![trigger is_return_site(instrs, j)]
            is_return_site(instrs, j) && byte_address(c, j) as int == target {
            let j = choose|j: int|
                #![trigger is_return_site(instrs, j)]
                is_return_site(instrs, j) && byte_address(c, j) as int == target;
            rv_result(
                c,
                instrs,
                set_register(regs, rd, return_address(c, k) as u32),
                memory,
                j,
                (fuel - 1) as nat,
            )
        } else {
            None
        }
    } else if instrs[k] is Lb || instrs[k] is Lh || instrs[k] is Lw || instrs[k] is Lbu || instrs[k] is Lhu {
        let inst = instrs[k];
        let a = effective_address(c, regs[load_operands(inst).1.index() as int], load_operands(inst).2);
        if access_allowed(c, memory, a, access_of(inst)) {
            rv_result(
                c,
                instrs,
                set_register(regs, load_operands(inst).0, load_result(inst, read_at(memory, a, access_of(inst)))),
                memory,
                k + 1,
                (fuel - 1) as nat,
            )
        } else {
            None
        }
    } else if instrs[k] is Sb || instrs[k] is Sh || instrs[k] is Sw {
        let inst = instrs[k];
        let a = effective_address(c, regs[store_operands(inst).0.index() as int], store_operands(inst).2);
        if access_allowed(c, memory, a, access_of(inst)) {
            rv_result(
                c,
                instrs,
                regs,
                written_at(memory, a, access_of(inst), sign_extended(regs[store_operands(inst).1.index() as int])),
                k + 1,
                (fuel - 1) as nat,
            )
        } else {
            None
        }
    } else {
        rv_result(c, instrs, rv_after(c, instrs[k], regs, k), memory, rv_next(instrs[k], regs, k), (fuel - 1) as nat)
    }
}

/// The machine's memory agrees with `memory` outside the register file.
pub open spec fn memory_agrees(c: CompilerConfig, machine: Seq<u8>, memory: Seq<u8>) -> bool {
    &&& machine.len() == memory.len()
    &&& forall|j: int| 0 <= j < memory.len() && !(c.regfile_base <= j < c.regfile_base + 128)
        ==> #[trigger] machine[j] == memory[j]
}

/// Writing into memory changes only the bytes written.
proof fn lemma_written_at(memory: Seq<u8>, a: u64, size: MemorySize, v: u64, j: int)
    requires
        in_bounds(memory, a, size) == Some(true),
        0 <= j < memory.len(),
    ensures
        written_at(memory, a, size, v).len() == memory.len(),
        !((a as usize) <= j < (a as usize) + size.bytes()) ==> written_at(memory, a, size, v)[j] == memory[j],
        (a as usize) <= j < (a as usize) + size.bytes() ==> written_at(memory, a, size, v)[j] == le_bytes(
            v as nat,
            size.bytes(),
        )[j - (a as usize)],
{
    lemma_value_of_bytes(v as nat, size.bytes());
    let b = a as usize;
    let w = written_at(memory, a, size, v);
    if j < b {
        assert(w[j] == memory.subrange(0, b as int)[j]);
    } else if j < b + size.bytes() {
        assert(w[j] == le_bytes(v as nat, size.bytes())[j - b]);
    } else {
        assert(w[j] == memory.subrange(b + size.bytes(), memory.len() as int)[j - b - size.bytes()]);
    }
}

/// Supported instructions are known, and leave JALR jumps exactly where one of them
/// is a JALR.
proof fn lemma_no_indirect_jumps(c: CompilerConfig, instrs: Seq<Instruction>, k: nat)
    requires
        k <= instrs.len(),
        forall|i: int| 0 <= i < k ==> is_supported(#[trigger] instrs[i]),
    ensures
        first_unknown(instrs, k) is None,
        (indirect_jumps(c, instrs, k).len() == 0) == !(exists|i: int| 0 <= i < k && #[trigger] instrs[i] is Jalr),
    decreases k,
{
    if k > 0 {
        lemma_no_indirect_jumps(c, instrs, (k - 1) as nat);
        assert(is_supported(instrs[k - 1]));
        if exists|i: int| 0 <= i < k - 1 && #[trigger] instrs[i] is Jalr {
            let i = choose|i: int| 0 <= i < k - 1 && #[trigger] instrs[i] is Jalr;
            assert(0 <= i < k && instrs[i] is Jalr);
        }
        if instrs[k - 1] is Jalr {
            assert(0 <= k - 1 < k && instrs[k - 1] is Jalr);
        } else if exists|i: int| 0 <= i < k && #[trigger] instrs[i] is Jalr {
            let i = choose|i: int| 0 <= i < k && #[trigger] instrs[i] is Jalr;
            assert(0 <= i < k - 1 && instrs[i] is Jalr);
        }
    }
}

/// The return sites of the first `k` instructions, in increasing order, are those
/// that `is_return_site` names among the first `k`.
proof fn lemma_return_sites(instrs: Seq<Instruction>, k: nat)
    requires
        k <= instrs.len(),
        k <= usize::MAX,
    ensures
        forall|a: int, b: int| 0 <= a < b < return_sites(instrs, k).len()
            ==> return_sites(instrs, k)[a] < return_sites(instrs, k)[b],
        forall|a: int| 0 <= a < return_sites(instrs, k).len() ==> 1 <= #[trigger] return_sites(instrs, k)[a] <= k,
        forall|j: int| 1 <= j <= k && is_return_site(instrs, j) ==> return_sites(instrs, k).contains(j as usize),
    decreases k,
{
    if k > 0 {
        let j0 = (k - 1) as nat;
        lemma_return_sites(instrs, j0);
        let prev = return_sites(instrs, j0);
        let all = return_sites(instrs, k);
        assert forall|a: int| 0 <= a < all.len() implies 1 <= #[trigger] all[a] <= k by {
            if a < prev.len() {
                assert(all[a] == prev[a]);
            }
        }
        assert forall|a: int, b: int| 0 <= a < b < all.len() implies all[a] < all[b] by {
            if b < prev.len() {
                assert(all[a] == prev[a] && all[b] == prev[b]);
            } else {
                assert(all[a] == prev[a]);
            }
        }
        assert forall|j: int| 1 <= j <= k && is_return_site(instrs, j) implies all.contains(j as usize) by {
            if j < k {
                let m = choose|m: int| 0 <= m < prev.len() && prev[m] == j as usize;
                assert(all[m] == prev[m]);
            } else {
                assert(all[all.len() - 1] == k as usize);
            }
        }
    }
}

/// A program compiled from supported instructions is their code with its jumps
/// resolved, then the epilogue.
proof fn lemma_program_shape(c: CompilerConfig, instrs: Seq<Instruction>)
    requires
        compile_outcome(c, instrs) is Program,
        config_fits(c),
        instrs.len() <= 100_000_000,
        forall|i: int| 0 <= i < instrs.len() ==> is_supported(#[trigger] instrs[i]),
        !has_jalr(instrs),
    ensures
        ({
            let n = instrs.len();
            let p1 = resolve(code_upto(c, instrs, n), direct_jumps(c, instrs, n), position_map(c, instrs))->Ok_0;
            &&& compile_outcome(c, instrs)->Program_0 == p1 + epilogue(c)
            &&& p1.len() == start_of(c, instrs, n)
            &&& start_of(c, instrs, n) <= 3 + 25 * n
        }),
{
    let n = instrs.len();
    lemma_no_indirect_jumps(c, instrs, n);
    lemma_code_upto(c, instrs, n);
    lemma_jumps_in_code(c, instrs, n);
    lemma_resolve_len(code_upto(c, instrs, n), direct_jumps(c, instrs, n), position_map(c, instrs));
}

/// A program compiled from supported instructions holds the code of each of them,
/// which ends at most 25 instructions each after the prologue.
proof fn lemma_program_bounds(c: CompilerConfig, instrs: Seq<Instruction>)
    requires
        compile_outcome(c, instrs) is Program,
        config_fits(c),
        instrs.len() <= 100_000_000,
    ensures
        start_of(c, instrs, instrs.len()) <= 3 + 25 * instrs.len(),
        compile_outcome(c, instrs)->Program_0.len() >= start_of(c, instrs, instrs.len()),
        compile_outcome(c, instrs)->Program_0.len() <= start_of(c, instrs, instrs.len())
            + 2 * instrs.len() + 12,
{
    lemma_code_upto(c, instrs, instrs.len());
    lemma_compiled_jumps_land(c, instrs);
}

/// The epilogue stands where the code after the last instruction starts.
proof fn lemma_epilogue_in_program(c: CompilerConfig, instrs: Seq<Instruction>, p: Seq<SvmInstruction>)
    requires
        compile_outcome(c, instrs) == Compiled::Program(p),
        config_fits(c),
        instrs.len() <= 100_000_000,
        forall|i: int| 0 <= i < instrs.len() ==> is_supported(#[trigger] instrs[i]),
        !has_jalr(instrs),
    ensures
        code_at(p, start_of(c, instrs, instrs.len()) as int, epilogue(c)),
{
    lemma_program_shape(c, instrs);
    let start = start_of(c, instrs, instrs.len()) as int;
    assert forall|i: int| 0 <= i < epilogue(c).len() implies #[trigger] p[start + i] == epilogue(c)[i] by {}
}

/// A compiled program run from where the code of instruction `k` starts, with the
/// register file holding `regs`, exits with `r0` holding what RISC-V returns from
/// there, sign-extended, as long as the compute units last.
#[verifier::spinoff_prover]
#[verifier::rlimit(80)]
proof fn lemma_simulation(
    c: CompilerConfig,
    instrs: Seq<Instruction>,
    p: Seq<SvmInstruction>,
    s: MachineState,
    regs: Seq<u32>,
    memory: Seq<u8>,
    k: int,
    fuel: nat,
)
    requires
        compile_outcome(c, instrs) == Compiled::Program(p),
        config_fits(c),
        instrs.len() <= 100_000_000,
        forall|i: int| 0 <= i < instrs.len() ==> is_supported(#[trigger] instrs[i]),
        rv_result(c, instrs, regs, memory, k, fuel) is Some,
        0 <= k <= instrs.len(),
        s.pc == start_of(c, instrs, k as nat),
        file_holds(c, s.memory, regs),
        memory_agrees(c, s.memory, memory),
        can_run(s, p, step_budget(instrs) * fuel + 10),
        register_file_fits(c, s.memory),
        s.registers[0] == 0,
    ensures
        run(s, p) matches Effect::Done(t) && t.registers[0] == sign_extended(
            rv_result(c, instrs, regs, memory, k, fuel)->Some_0,
        ),
    decreases fuel,
{
    let n = instrs.len();
    lemma_code_upto(c, instrs, n);
    lemma_no_indirect_jumps(c, instrs, n);
    lemma_program_bounds(c, instrs);
    let v = rv_result(c, instrs, regs, memory, k, fuel)->Some_0;
    if fuel > 0 {
        lemma_budget(instrs, fuel);
    }
    if k == n {
        assert(code_at(p, s.pc as int, inst_code(c, Instruction::Ecall, k))) by {
            reveal(inst_code);
            lemma_epilogue_in_program(c, instrs, p);
        }
        lemma_ecall_runs(c, p, s, k);
    } else if instrs[k] is Ecall {
        lemma_compiled_code_stands(c, instrs, k);
        lemma_ecall_runs(c, p, s, k);
    } else if instrs[k] is Ebreak {
        lemma_compiled_code_stands(c, instrs, k);
        lemma_ebreak_runs(c, p, s, k);
        lemma_word_zero();
    } else if is_memory_access(instrs[k]) {
        lemma_memory_access_step(c, instrs, p, s, regs, memory, k, fuel);
    } else if instrs[k] is Jalr {
        lemma_jalr_step(c, instrs, p, s, regs, memory, k, fuel);
    } else {
        let inst = instrs[k];
        let regs2 = rv_after(c, inst, regs, k);
        let k2 = rv_next(inst, regs, k);
        assert(rv_result(c, instrs, regs, memory, k, fuel) == rv_result(c, instrs, regs2, memory, k2, (fuel - 1) as nat));
        let steps: nat = if is_straight(inst) {
            lemma_compiled_code_stands(c, instrs, k);
            let st = lemma_straight_runs(c, p, s, inst, k, regs);
            assert(code_upto(c, instrs, (k + 1) as nat) == code_upto(c, instrs, k as nat) + inst_code(c, inst, k));
            st
        } else if is_division(inst) {
            lemma_compiled_code_stands(c, instrs, k);
            assert(code_upto(c, instrs, (k + 1) as nat) == code_upto(c, instrs, k as nat) + inst_code(c, inst, k));
            let st = if inst is Div || inst is Divu {
                lemma_division_runs(c, p, s, inst, k)
            } else {
                lemma_remainder_runs(c, p, s, inst, k)
            };
            let t = after(s, p, st)->Some_0;
            let rd = division_operands(inst).0;
            assert forall|r: Register| #[trigger] rv_value(c, t.memory, r) == regs2[r.index() as int] by {
                lemma_register_index_injective(r, rd);
            }
            if rd != Register::ZERO {
                lemma_register_index_injective(rd, Register::ZERO);
            }
            st
        } else if is_high_multiply(inst) {
            lemma_compiled_code_stands(c, instrs, k);
            assert(code_upto(c, instrs, (k + 1) as nat) == code_upto(c, instrs, k as nat) + inst_code(c, inst, k));
            let st = lemma_high_product_runs(c, p, s, inst, k);
            let t = after(s, p, st)->Some_0;
            let rd = high_operands(inst).0;
            assert forall|r: Register| #[trigger] rv_value(c, t.memory, r) == regs2[r.index() as int] by {
                lemma_register_index_injective(r, rd);
            }
            if rd != Register::ZERO {
                lemma_register_index_injective(rd, Register::ZERO);
            }
            st
        } else {
            lemma_compiled_jump_code(c, instrs, k);
            let own = inst_code(c, inst, k);
            assert(memory_agrees(c, s.memory, memory));
            let off = p[last_of(c, instrs, k)].offset;
            assert(code_upto(c, instrs, (k + 1) as nat) == code_upto(c, instrs, k as nat) + own);
            assert(start_of(c, instrs, (k + 1) as nat) <= start_of(c, instrs, n));
            assert(start_of(c, instrs, jump_target_index(inst, k) as nat) <= start_of(c, instrs, n));
            if inst is Jal {
                lemma_jal_runs(c, p, s, inst, k, off);
                let t = after(s, p, own.len())->Some_0;
                let rd = inst->Jal_rd;
                assert forall|r: Register| #[trigger] rv_value(c, t.memory, r) == regs2[r.index() as int] by {
                    lemma_register_index_injective(r, rd);
                }
                if rd != Register::ZERO {
                    lemma_register_index_injective(rd, Register::ZERO);
                }
            } else {
                lemma_branch_runs(c, p, s, inst, k, off);
            }
            own.len()
        };
        let t = after(s, p, steps)->Some_0;
        lemma_after_run(s, p, steps);
        assert(t.pc == start_of(c, instrs, k2 as nat));
        assert(memory_agrees(c, t.memory, memory));
        lemma_simulation(c, instrs, p, t, regs2, memory, k2, (fuel - 1) as nat);
    }
}

/// The step of the simulation for a load or store.
#[verifier::spinoff_prover]
#[verifier::rlimit(80)]
proof fn lemma_memory_access_step(
    c: CompilerConfig,
    instrs: Seq<Instruction>,
    p: Seq<SvmInstruction>,
    s: MachineState,
    regs: Seq<u32>,
    memory: Seq<u8>,
    k: int,
    fuel: nat,
)
    requires
        compile_outcome(c, instrs) == Compiled::Program(p),
        config_fits(c),
        instrs.len() <= 100_000_000,
        forall|i: int| 0 <= i < instrs.len() ==> is_supported(#[trigger] instrs[i]),
        rv_result(c, instrs, regs, memory, k, fuel) is Some,
        0 <= k < instrs.len(),
        is_memory_access(instrs[k]),
        s.pc == start_of(c, instrs, k as nat),
        file_holds(c, s.memory, regs),
        memory_agrees(c, s.memory, memory),
        can_run(s, p, step_budget(instrs) * fuel + 10),
        register_file_fits(c, s.memory),
        s.registers[0] == 0,
    ensures
        run(s, p) matches Effect::Done(t) && t.registers[0] == sign_extended(
            rv_result(c, instrs, regs, memory, k, fuel)->Some_0,
        ),
    decreases fuel, 0nat,
{
    let n = instrs.len();
    let inst = instrs[k];
    lemma_code_upto(c, instrs, n);
    lemma_program_bounds(c, instrs);
    lemma_budget(instrs, fuel);
    lemma_compiled_code_stands(c, instrs, k);
    assert(code_upto(c, instrs, (k + 1) as nat) == code_upto(c, instrs, k as nat) + inst_code(c, inst, k));
    let own = inst_code(c, inst, k);
    let size = access_of(inst);
    let base_reg = if inst is Sb || inst is Sh || inst is Sw { store_operands(inst).0 } else { load_operands(inst).1 };
    let imm = if inst is Sb || inst is Sh || inst is Sw { store_operands(inst).2 } else { load_operands(inst).2 };
    let a = effective_address(c, regs[base_reg.index() as int], imm);
    assert(effective_address(c, rv_value(c, s.memory, base_reg), imm) == a);
    assert(access_allowed(c, memory, a, size));
    let b = a as usize;
    if inst is Sb || inst is Sh || inst is Sw {
        let (rs1, rs2, _) = store_operands(inst);
        let y = sign_extended(regs[rs2.index() as int]);
        let memory2 = written_at(memory, a, size, y);
        lemma_written_at(memory, a, size, y, 0);
        lemma_written_at(s.memory, a, size, y, 0);
        assert(rv_result(c, instrs, regs, memory, k, fuel) == rv_result(c, instrs, regs, memory2, k + 1, (fuel - 1) as nat));
        lemma_store_runs_memory(c, p, s, inst, k);
        let t = after(s, p, own.len())->Some_0;
        assert(t.memory == written_at(s.memory, a, size, y));
        assert forall|j: int| 0 <= j < memory.len() && !(c.regfile_base <= j < c.regfile_base + 128)
            implies #[trigger] t.memory[j] == memory2[j] by {
            lemma_written_at(memory, a, size, y, j);
            lemma_written_at(s.memory, a, size, y, j);
        }
        assert forall|r: Register| #[trigger] rv_value(c, t.memory, r) == regs[r.index() as int] by {
            if r != Register::ZERO {
                let q = reg_addr(c, r);
                assert(0 <= r.index() < 32);
                assert(c.regfile_base <= q && q + 4 <= c.regfile_base + 128);
                assert forall|i: int| 0 <= i < 4 implies #[trigger] t.memory.subrange(q, q + 4)[i] == s.memory.subrange(q, q + 4)[i] by {
                    lemma_written_at(s.memory, a, size, y, q + i);
                    assert(!(b <= q + i < b + size.bytes()));
                }
                assert(t.memory.subrange(q, q + 4) =~= s.memory.subrange(q, q + 4));
                assert(rv_value(c, s.memory, r) == regs[r.index() as int]);
            }
        }
        lemma_after_run(s, p, own.len());
        lemma_simulation(c, instrs, p, t, regs, memory2, k + 1, (fuel - 1) as nat);
    } else {
        let (rd, rs1, _) = load_operands(inst);
        assert(s.memory.subrange(b as int, b + size.bytes()) =~= memory.subrange(b as int, b + size.bytes())) by {
            assert forall|i: int| 0 <= i < size.bytes() implies #[trigger] s.memory.subrange(b as int, b + size.bytes())[i] == memory.subrange(b as int, b + size.bytes())[i] by {
                assert(s.memory[b + i] == memory[b + i]);
            }
        }
        let v = load_result(inst, read_at(memory, a, size));
        let regs2 = set_register(regs, rd, v);
        assert(rv_result(c, instrs, regs, memory, k, fuel) == rv_result(c, instrs, regs2, memory, k + 1, (fuel - 1) as nat));
        lemma_load_runs_memory(c, p, s, inst, k);
        let t = after(s, p, own.len())->Some_0;
        assert forall|r: Register| #[trigger] rv_value(c, t.memory, r) == regs2[r.index() as int] by {
            lemma_register_index_injective(r, rd);
        }
        if rd != Register::ZERO {
            lemma_register_index_injective(rd, Register::ZERO);
        }
        lemma_after_run(s, p, own.len());
        lemma_simulation(c, instrs, p, t, regs2, memory, k + 1, (fuel - 1) as nat);
    }
}

/// The step of the simulation for a JALR: its code, then the dispatch table.
#[verifier::spinoff_prover]
#[verifier::rlimit(80)]
proof fn lemma_jalr_step(
    c: CompilerConfig,
    instrs: Seq<Instruction>,
    p: Seq<SvmInstruction>,
    s: MachineState,
    regs: Seq<u32>,
    memory: Seq<u8>,
    k: int,
    fuel: nat,
)
    requires
        compile_outcome(c, instrs) == Compiled::Program(p),
        config_fits(c),
        instrs.len() <= 100_000_000,
        forall|i: int| 0 <= i < instrs.len() ==> is_supported(#[trigger] instrs[i]),
        rv_result(c, instrs, regs, memory, k, fuel) is Some,
        0 <= k < instrs.len(),
        instrs[k] is Jalr,
        s.pc == start_of(c, instrs, k as nat),
        file_holds(c, s.memory, regs),
        memory_agrees(c, s.memory, memory),
        can_run(s, p, step_budget(instrs) * fuel + 10),
        register_file_fits(c, s.memory),
        s.registers[0] == 0,
    ensures
        run(s, p) matches Effect::Done(t) && t.registers[0] == sign_extended(
            rv_result(c, instrs, regs, memory, k, fuel)->Some_0,
        ),
    decreases fuel, 0nat,
{
    let n = instrs.len();
    let inst = instrs[k];
    let map = position_map(c, instrs);
    lemma_code_upto(c, instrs, n);
    lemma_program_bounds(c, instrs);
    lemma_budget(instrs, fuel);
    lemma_no_indirect_jumps(c, instrs, n);
    assert(has_jalr(instrs));
    assert(0 <= k < n && instrs[k] is Jalr);
    let (rd, rs1, imm) = jalr_operands(inst);
    let x = regs[rs1.index() as int];
    let sum = signed32(x) + imm;
    let target = sum - sum % 2;
    let regs2 = set_register(regs, rd, return_address(c, k) as u32);
    // the JALR's own code
    lemma_compiled_jump_code(c, instrs, k);
    let own = inst_code(c, inst, k);
    let off = p[last_of(c, instrs, k)].offset;
    lemma_jalr_runs(c, p, s, inst, k, off);
    let s1 = after(s, p, own.len())->Some_0;
    lemma_jalr_register(x, imm);
    assert forall|r: Register| #[trigger] rv_value(c, s1.memory, r) == regs2[r.index() as int] by {
        lemma_register_index_injective(r, rd);
    }
    if target == 0 {
        lemma_compiled_dispatch(c, instrs);
        lemma_dispatch_exits(c, p, s1, return_sites(instrs, n), start_of(c, instrs, n) as int, map);
        lemma_after_run(s, p, own.len());
        assert(rv_value(c, s1.memory, Register::A0) == regs2[10]);
    } else {
        let j = choose|j: int|
            #![trigger is_return_site(instrs, j)]
            is_return_site(instrs, j) && byte_address(c, j) as int == target;
        assert(is_return_site(instrs, j) && byte_address(c, j) as int == target);
        assert(rv_result(c, instrs, regs, memory, k, fuel) == rv_result(c, instrs, regs2, memory, j, (fuel - 1) as nat));
        assert(s1.registers[1] == (byte_address(c, j) as i64) as u64);
        // the dispatch table
        let sites = return_sites(instrs, n);
        let start = start_of(c, instrs, n) as int;
        lemma_compiled_dispatch(c, instrs);
        lemma_return_sites(instrs, n);
        lemma_jumps_in_code(c, instrs, n);
        assert forall|a: int| 0 <= a < sites.len() && byte_address(c, #[trigger] sites[a] as int) == byte_address(c, j)
            implies sites[a] == j by {
            lemma_byte_address_injective(c, sites[a] as int, j);
        }
        assert forall|a: int| 0 <= a < sites.len() implies map[#[trigger] sites[a] as int] <= p.len() by {
            assert(start_of(c, instrs, sites[a] as nat) <= start_of(c, instrs, n));
        }
        let steps = lemma_dispatch_runs(c, p, s1, sites, start, map, j);
        let s2 = after(s1, p, steps)->Some_0;
        lemma_after_compose(s, p, own.len(), steps);
        assert(sites.contains(j as usize));
        assert(s2.pc == start_of(c, instrs, j as nat));
        assert forall|r: Register| #[trigger] rv_value(c, s2.memory, r) == regs2[r.index() as int] by {
            lemma_register_index_injective(r, rd);
        }
        if rd != Register::ZERO {
            lemma_register_index_injective(rd, Register::ZERO);
        }
        lemma_after_run(s, p, own.len() + steps);
        lemma_simulation(c, instrs, p, s2, regs2, memory, j, (fuel - 1) as nat);
    }
}

/// A compiled program started on a machine `m` whose memory holds the register file
/// of `c`, zeroed, and whose compute limit covers `step_budget` units for each of
/// `fuel` RISC-V instructions exits with `r0` holding what RISC-V returns,
/// sign-extended.
proof fn lemma_started_run(c: CompilerConfig, instrs: Seq<Instruction>, p: Seq<SvmInstruction>, m: MachineState, fuel: nat)
    requires
        compile_outcome(c, instrs) == Compiled::Program(p),
        config_fits(c),
        c.stack_base <= i32::MAX,
        instrs.len() <= 100_000_000,
        forall|i: int| 0 <= i < instrs.len() ==> is_supported(#[trigger] instrs[i]),
        rv_result(c, instrs, initial_registers(c), m.memory, 0, fuel) is Some,
        m.registers.len() == 11,
        m.registers[0] == 0,
        register_file_fits(c, m.memory),
        forall|j: int| c.regfile_base <= j < c.regfile_base + 128 ==> #[trigger] m.memory[j] == 0,
        m.compute_units + step_budget(instrs) * fuel + 17 <= m.compute_limit,
    ensures
        run(started(m), p) matches Effect::Done(t) && t.registers[0] == sign_extended(
            rv_result(c, instrs, initial_registers(c), m.memory, 0, fuel)->Some_0,
        ),
{
    let n = instrs.len();
    lemma_program_bounds(c, instrs);
    lemma_code_upto(c, instrs, n);
    let s = started(m);
    lemma_compiled_prologue(c, instrs);
    lemma_prologue_runs(c, p, s);
    let s0 = after(s, p, 3)->Some_0;
    let init = initial_registers(c);
    assert(file_holds(c, s0.memory, init)) by {
        assert forall|r: Register| #[trigger] rv_value(c, s0.memory, r) == init[r.index() as int] by {
            lemma_register_index_injective(r, Register::SP);
        }
    }
    assert(memory_agrees(c, s0.memory, m.memory));
    lemma_simulation(c, instrs, p, s0, init, m.memory, 0, fuel);
    lemma_after_run(s, p, 3);
}

/// A program of supported instructions (all but the unknown words), compiled with
/// the default configuration and run by `execute`, returns what RISC-V returns
/// from it (`rv_result`, starting from the registers `initial_registers` and the
/// zeroed memory `execute` provides), sign-extended to 64 bits, whenever it
/// compiles and RISC-V returns within a number of instructions `fuel` whose code
/// the compute limit covers (`step_budget` units each).
pub proof fn lemma_program_returns(instrs: Seq<Instruction>, fuel: nat)
    requires
        instrs.len() <= 100_000_000,
        forall|i: int| 0 <= i < instrs.len() ==> is_supported(#[trigger] instrs[i]),
        rv_result(default_config(), instrs, initial_registers(default_config()), execution_machine().memory, 0, fuel) is Some,
        step_budget(instrs) * fuel + 17 <= 1_000_000,
    ensures
        compile_outcome(default_config(), instrs) matches Compiled::Program(p) ==> executed(p) == Some(
            Ok::<u64, SvmError>(sign_extended(
                rv_result(
                    default_config(),
                    instrs,
                    initial_registers(default_config()),
                    execution_machine().memory,
                    0,
                    fuel,
                )->Some_0,
            )),
        ),
{
    let c = default_config();
    if compile_outcome(c, instrs) is Program {
        let p = compile_outcome(c, instrs)->Program_0;
        lemma_started_run(c, instrs, p, execution_machine(), fuel);
    }
}

/// The machine `m` with the largest compute limit.
pub open spec fn unlimited(m: MachineState) -> MachineState {
    MachineState { compute_limit: u64::MAX, ..m }
}

/// A program of supported instructions, compiled with any configuration `c` whose
/// register file fits, run on any machine `m` whose memory holds that register file
/// (zeroed) and whose compute units so far fit its limit: the run with no limit
/// but `u64::MAX` exits with `r0` holding what RISC-V returns (`rv_result`, from
/// the registers `initial_registers(c)` and the machine's memory), sign-extended;
/// the run under `m`'s own limit gives that result where the units that run
/// charged fit the limit, and fails with `ComputeBudgetExceeded` where they do not.
/// This holds whenever RISC-V returns within `fuel` instructions whose
/// `step_budget` units fit in 64 bits.
pub proof fn lemma_compiled_run_returns(c: CompilerConfig, instrs: Seq<Instruction>, m: MachineState, fuel: nat)
    requires
        config_fits(c),
        c.stack_base <= i32::MAX,
        instrs.len() <= 100_000_000,
        forall|i: int| 0 <= i < instrs.len() ==> is_supported(#[trigger] instrs[i]),
        rv_result(c, instrs, initial_registers(c), m.memory, 0, fuel) is Some,
        m.registers.len() == 11,
        m.registers[0] == 0,
        register_file_fits(c, m.memory),
        forall|j: int| c.regfile_base <= j < c.regfile_base + 128 ==> #[trigger] m.memory[j] == 0,
        m.compute_units <= m.compute_limit,
        m.compute_units + step_budget(instrs) * fuel + 17 <= u64::MAX,
    ensures
        compile_outcome(c, instrs) matches Compiled::Program(p) ==> {
            let v = sign_extended(rv_result(c, instrs, initial_registers(c), m.memory, 0, fuel)->Some_0);
            let whole = run(started(unlimited(m)), p);
            &&& whole matches Effect::Done(t) && t.registers[0] == v
            &&& whole->Done_0.compute_units <= m.compute_limit ==> run_result(run(started(m), p)) == Some(
                Ok::<u64, SvmError>(v),
            )
            &&& whole->Done_0.compute_units > m.compute_limit ==> run(started(m), p) matches Effect::Error(
                SvmError::ComputeBudgetExceeded(_, _),
                _,
            )
        },
{
    if compile_outcome(c, instrs) is Program {
        let p = compile_outcome(c, instrs)->Program_0;
        let big = unlimited(m);
        lemma_started_run(c, instrs, p, big, fuel);
        lemma_run_limit(started(big), p, m.compute_limit);
        assert(MachineState { compute_limit: m.compute_limit, ..started(big) } == started(m));
    }
}

} // verus!
