//! Which sBPF registers compiled code names: only `r0` to `r9`, so never the
//! read-only frame pointer `r10`.

use vstd::prelude::*;
use crate::riscv::instruction::{Instruction, Register};
use crate::svm::bytecode::{MemorySize, SvmInstruction, SvmRegister};
use super::templates::{
    branch_code, code_upto, compilable, compile_outcome, constant_code, direct_jumps,
    dispatch_table, div_code, first_unknown, i_type_code, indirect_jumps, inst_code,
    jal_code, jalr_code, lemma_code_upto, lemma_jumps_in_code, load_code, load_mem_code,
    mulh_code, position_map, prologue, r_type_code, rem_code, resolve, resolve_indirect,
    return_sites, shift_code, shift_imm_code, slt_code, slti_code, start_of, store_code,
    store_mem_code,
};
use super::translator::CompilerConfig;

verus! {

/// Every instruction of `s` names registers `r0` to `r9` only.
pub open spec fn uses_temporaries(s: Seq<SvmInstruction>) -> bool {
    forall|i: int| 0 <= i < s.len() ==> #[trigger] s[i].dst <= 9 && s[i].src <= 9
}

/// Joining two such sequences gives one.
pub broadcast proof fn lemma_temporaries_concat(a: Seq<SvmInstruction>, b: Seq<SvmInstruction>)
    requires
        uses_temporaries(a),
        uses_temporaries(b),
    ensures
        #[trigger] uses_temporaries(a + b),
{
    assert forall|i: int| 0 <= i < (a + b).len() implies #[trigger] (a + b)[i].dst <= 9 && (a + b)[i].src <= 9 by {
        if i < a.len() {
            assert((a + b)[i] == a[i]);
        } else {
            assert((a + b)[i] == b[i - a.len()]);
        }
    }
}

/// Moving between a RISC-V register and `r0` to `r9` names only those.
proof fn lemma_move_temporaries(c: CompilerConfig, svm: SvmRegister, rv: Register)
    requires
        svm.number() <= 9,
    ensures
        uses_temporaries(load_code(c, svm, rv)),
        uses_temporaries(store_code(c, rv, svm)),
{
    broadcast use lemma_temporaries_concat;
    let load = load_code(c, svm, rv);
    if rv != Register::ZERO {
        assert(uses_temporaries(load.subrange(0, 2)));
        assert(load == load.subrange(0, 2) + load.subrange(2, 4));
        assert(uses_temporaries(load.subrange(2, 4)));
    }
}

/// The templates for computations name `r0` to `r9` only.
#[verifier::spinoff_prover]
#[verifier::rlimit(40)]
proof fn lemma_alu_templates(c: CompilerConfig, rd: Register, rs1: Register, rs2: Register)
    ensures
        forall|op: u8| #[trigger] uses_temporaries(r_type_code(c, rd, rs1, rs2, op)),
        forall|imm: i32, op: u8| #[trigger] uses_temporaries(i_type_code(c, rd, rs1, imm, op)),
        forall|r: bool, a: bool| #[trigger] uses_temporaries(shift_code(c, rd, rs1, rs2, r, a)),
        forall|s: u32, r: bool, a: bool| #[trigger] uses_temporaries(shift_imm_code(c, rd, rs1, s, r, a)),
        forall|sg: bool| #[trigger] uses_temporaries(slt_code(c, rd, rs1, rs2, sg)),
        forall|imm: i32, sg: bool| #[trigger] uses_temporaries(slti_code(c, rd, rs1, imm, sg)),
        forall|a: bool, b: bool| #[trigger] uses_temporaries(mulh_code(c, rd, rs1, rs2, a, b)),
{
    broadcast use lemma_temporaries_concat;
    lemma_move_temporaries(c, SvmRegister::R1, rs1);
    lemma_move_temporaries(c, SvmRegister::R2, rs2);
    lemma_move_temporaries(c, SvmRegister::R1, rd);
    lemma_move_temporaries(c, SvmRegister::R3, rd);
    reveal(r_type_code);
    reveal(i_type_code);
    reveal(shift_code);
    reveal(shift_imm_code);
    reveal(slt_code);
    reveal(slti_code);
    reveal(mulh_code);
}

/// The templates for memory, control flow, constants and division name `r0` to
/// `r9` only.
#[verifier::spinoff_prover]
#[verifier::rlimit(40)]
proof fn lemma_other_templates(c: CompilerConfig, rd: Register, rs1: Register, rs2: Register)
    ensures
        forall|imm: i32, sz: MemorySize, sg: bool| #[trigger] uses_temporaries(load_mem_code(c, rd, rs1, imm, sz, sg)),
        forall|imm: i32, sz: MemorySize| #[trigger] uses_temporaries(store_mem_code(c, rs1, rs2, imm, sz)),
        forall|op: u8| #[trigger] uses_temporaries(branch_code(c, rs1, rs2, op)),
        forall|idx: int| #[trigger] uses_temporaries(jal_code(c, rd, idx)),
        forall|imm: i32, idx: int| #[trigger] uses_temporaries(jalr_code(c, rd, rs1, imm, idx)),
        forall|v: i32| #[trigger] uses_temporaries(constant_code(c, rd, v)),
        forall|sg: bool| #[trigger] uses_temporaries(div_code(c, rd, rs1, rs2, sg)),
        forall|sg: bool| #[trigger] uses_temporaries(rem_code(c, rd, rs1, rs2, sg)),
{
    broadcast use lemma_temporaries_concat;
    lemma_move_temporaries(c, SvmRegister::R1, rs1);
    lemma_move_temporaries(c, SvmRegister::R2, rs2);
    lemma_move_temporaries(c, SvmRegister::R1, rd);
    lemma_move_temporaries(c, SvmRegister::R2, rd);
    reveal(load_mem_code);
    reveal(store_mem_code);
    reveal(branch_code);
    reveal(jal_code);
    reveal(jalr_code);
    reveal(constant_code);
    reveal(div_code);
    reveal(rem_code);
}

/// The code of any instruction names `r0` to `r9` only.
#[verifier::spinoff_prover]
#[verifier::rlimit(40)]
proof fn lemma_inst_code_temporaries(c: CompilerConfig, inst: Instruction, idx: int)
    ensures
        uses_temporaries(inst_code(c, inst, idx)),
{
    broadcast use lemma_temporaries_concat;
    reveal(inst_code);
    let (rd, rs1, rs2) = match inst {
        Instruction::Add { rd, rs1, rs2 } | Instruction::Sub { rd, rs1, rs2 }
        | Instruction::Xor { rd, rs1, rs2 } | Instruction::Or { rd, rs1, rs2 }
        | Instruction::And { rd, rs1, rs2 } | Instruction::Sll { rd, rs1, rs2 }
        | Instruction::Srl { rd, rs1, rs2 } | Instruction::Sra { rd, rs1, rs2 }
        | Instruction::Slt { rd, rs1, rs2 } | Instruction::Sltu { rd, rs1, rs2 }
        | Instruction::Mul { rd, rs1, rs2 } | Instruction::Mulh { rd, rs1, rs2 }
        | Instruction::Mulhsu { rd, rs1, rs2 } | Instruction::Mulhu { rd, rs1, rs2 }
        | Instruction::Div { rd, rs1, rs2 } | Instruction::Divu { rd, rs1, rs2 }
        | Instruction::Rem { rd, rs1, rs2 } | Instruction::Remu { rd, rs1, rs2 } => (rd, rs1, rs2),
        Instruction::Addi { rd, rs1, .. } | Instruction::Xori { rd, rs1, .. }
        | Instruction::Ori { rd, rs1, .. } | Instruction::Andi { rd, rs1, .. }
        | Instruction::Slli { rd, rs1, .. } | Instruction::Srli { rd, rs1, .. }
        | Instruction::Srai { rd, rs1, .. } | Instruction::Slti { rd, rs1, .. }
        | Instruction::Sltiu { rd, rs1, .. } | Instruction::Lb { rd, rs1, .. }
        | Instruction::Lh { rd, rs1, .. } | Instruction::Lw { rd, rs1, .. }
        | Instruction::Lbu { rd, rs1, .. } | Instruction::Lhu { rd, rs1, .. }
        | Instruction::Jalr { rd, rs1, .. } => (rd, rs1, Register::ZERO),
        Instruction::Sb { rs1, rs2, .. } | Instruction::Sh { rs1, rs2, .. }
        | Instruction::Sw { rs1, rs2, .. } | Instruction::Beq { rs1, rs2, .. }
        | Instruction::Bne { rs1, rs2, .. } | Instruction::Blt { rs1, rs2, .. }
        | Instruction::Bge { rs1, rs2, .. } | Instruction::Bltu { rs1, rs2, .. }
        | Instruction::Bgeu { rs1, rs2, .. } => (Register::ZERO, rs1, rs2),
        Instruction::Jal { rd, .. } | Instruction::Lui { rd, .. } | Instruction::Auipc { rd, .. }
        | Instruction::Csrrw { rd, .. } | Instruction::Csrrs { rd, .. }
        | Instruction::Csrrc { rd, .. } | Instruction::Csrrwi { rd, .. }
        | Instruction::Csrrsi { rd, .. } | Instruction::Csrrci { rd, .. } => (rd, Register::ZERO, Register::ZERO),
        _ => (Register::ZERO, Register::ZERO, Register::ZERO),
    };
    lemma_alu_templates(c, rd, rs1, rs2);
    lemma_other_templates(c, rd, rs1, rs2);
    lemma_move_temporaries(c, SvmRegister::R0, Register::A0);
}

/// The prologue and the code of the first `k` instructions name `r0` to `r9` only.
proof fn lemma_code_temporaries(c: CompilerConfig, instrs: Seq<Instruction>, k: nat)
    requires
        k <= instrs.len(),
    ensures
        uses_temporaries(code_upto(c, instrs, k)),
    decreases k,
{
    broadcast use lemma_temporaries_concat;
    if k > 0 {
        lemma_code_temporaries(c, instrs, (k - 1) as nat);
        lemma_inst_code_temporaries(c, instrs[k - 1], k - 1);
    }
}

/// The dispatch table names `r0` to `r9` only.
proof fn lemma_dispatch_temporaries(c: CompilerConfig, sites: Seq<usize>, start: int, map: Seq<usize>)
    ensures
        dispatch_table(c, sites, start, map) matches Ok(d) ==> uses_temporaries(d),
    decreases sites.len(),
{
    broadcast use lemma_temporaries_concat;
    lemma_move_temporaries(c, SvmRegister::R0, Register::A0);
    if sites.len() > 0 {
        lemma_dispatch_temporaries(c, sites.drop_last(), start, map);
    }
}

/// Resolving jumps changes no register.
proof fn lemma_resolve_temporaries(p: Seq<SvmInstruction>, fixups: Seq<(usize, usize)>, map: Seq<usize>)
    requires
        uses_temporaries(p),
        forall|m: int| 0 <= m < fixups.len() ==> #[trigger] fixups[m].0 < p.len(),
    ensures
        resolve(p, fixups, map) matches Ok(q) ==> q.len() == p.len() && uses_temporaries(q),
    decreases fixups.len(),
{
    if fixups.len() > 0 {
        lemma_resolve_temporaries(p, fixups.drop_last(), map);
        if resolve(p, fixups, map) is Ok {
            let q0 = resolve(p, fixups.drop_last(), map)->Ok_0;
            let q = resolve(p, fixups, map)->Ok_0;
            let at = fixups.last().0;
            assert(q =~= q0.update(at as int, SvmInstruction { offset: q[at as int].offset, ..q0[at as int] }));
        }
    }
}

/// Pointing the JALR jumps at the table changes no register.
proof fn lemma_resolve_indirect_temporaries(p: Seq<SvmInstruction>, ats: Seq<usize>, start: int)
    requires
        uses_temporaries(p),
        forall|m: int| 0 <= m < ats.len() ==> #[trigger] ats[m] < p.len(),
    ensures
        resolve_indirect(p, ats, start) matches Ok(q) ==> q.len() == p.len() && uses_temporaries(q),
    decreases ats.len(),
{
    if ats.len() > 0 {
        lemma_resolve_indirect_temporaries(p, ats.drop_last(), start);
        if resolve_indirect(p, ats, start) is Ok {
            let q0 = resolve_indirect(p, ats.drop_last(), start)->Ok_0;
            let q = resolve_indirect(p, ats, start)->Ok_0;
            let at = ats.last();
            assert(q =~= q0.update(at as int, SvmInstruction { offset: q[at as int].offset, ..q0[at as int] }));
        }
    }
}

/// A compiled program names sBPF registers `r0` to `r9` only: it keeps its values in
/// the temporaries and the RISC-V register file in memory, and never names the
/// read-only frame pointer `r10`.
pub proof fn lemma_compiled_uses_temporaries(c: CompilerConfig, instrs: Seq<Instruction>)
    requires
        compilable(c, instrs.len()),
        start_of(c, instrs, instrs.len()) <= usize::MAX,
        compile_outcome(c, instrs) is Program,
    ensures
        uses_temporaries(compile_outcome(c, instrs)->Program_0),
{
    broadcast use lemma_temporaries_concat;
    let n = instrs.len();
    let map = position_map(c, instrs);
    let code = code_upto(c, instrs, n);
    lemma_code_upto(c, instrs, n);
    lemma_jumps_in_code(c, instrs, n);
    lemma_code_temporaries(c, instrs, n);
    lemma_move_temporaries(c, SvmRegister::R0, Register::A0);
    assert(first_unknown(instrs, n) is None);
    lemma_resolve_temporaries(code, direct_jumps(c, instrs, n), map);
    let p1 = resolve(code, direct_jumps(c, instrs, n), map)->Ok_0;
    if indirect_jumps(c, instrs, n).len() > 0 {
        let start = p1.len() as int;
        lemma_dispatch_temporaries(c, return_sites(instrs, n), start, map);
        let d = dispatch_table(c, return_sites(instrs, n), start, map)->Ok_0;
        let base = p1 + d + seq![SvmInstruction::exit()];
        lemma_resolve_indirect_temporaries(base, indirect_jumps(c, instrs, n), start);
    }
}

} // verus!
