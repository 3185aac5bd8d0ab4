//! Where the jumps of a compiled program go: each branch and JAL to the code of the
//! instruction it names, each JALR to the return dispatch table.

use vstd::prelude::*;
use crate::riscv::instruction::Instruction;
use crate::svm::bytecode::SvmInstruction;
use super::templates::{
    code_upto, compilable, compile_outcome, direct_jumps, dispatch_table, epilogue,
    first_unknown, indirect_jumps, inst_code, is_direct_jump, jump_target_index,
    lemma_code_upto, lemma_inst_code_len, lemma_jumps_in_code, position_map, resolve, lemma_dispatch_len,
    prologue, resolve_indirect, return_sites, start_of,
};
use super::execution::{code_at, jump_code_at};
use super::translator::CompilerConfig;

verus! {

/// The position of the last instruction of the code of instruction `k`: for a
/// branch, JAL or JALR, its jump.
pub open spec fn last_of(c: CompilerConfig, instrs: Seq<Instruction>, k: int) -> int {
    start_of(c, instrs, (k + 1) as nat) - 1
}

/// The entry that a branch or JAL at `k` leaves for resolution.
pub open spec fn jump_entry(c: CompilerConfig, instrs: Seq<Instruction>, k: int) -> (usize, usize) {
    (last_of(c, instrs, k) as usize, jump_target_index(instrs[k], k))
}

/// An instruction's code ends after the code of every instruction before it.
proof fn lemma_last_of_grows(c: CompilerConfig, instrs: Seq<Instruction>, k1: int, k2: int)
    requires
        0 <= k1 < k2 < instrs.len(),
        inst_code(c, instrs[k2], k2).len() >= 1,
    ensures
        last_of(c, instrs, k1) < last_of(c, instrs, k2),
        start_of(c, instrs, k2 as nat) <= last_of(c, instrs, k2),
{
    lemma_code_upto(c, instrs, (k2 + 1) as nat);
    lemma_code_upto(c, instrs, k2 as nat);
    assert(start_of(c, instrs, (k1 + 1) as nat) <= start_of(c, instrs, k2 as nat));
    assert(code_upto(c, instrs, (k2 + 1) as nat) == code_upto(c, instrs, k2 as nat) + inst_code(c, instrs[k2], k2));
}

/// The entries for branches and JALs are in order of position, one for each.
proof fn lemma_direct_entries(c: CompilerConfig, instrs: Seq<Instruction>, n: nat)
    requires
        n <= instrs.len(),
        n <= usize::MAX,
        start_of(c, instrs, n) <= usize::MAX,
    ensures
        forall|m1: int, m2: int| 0 <= m1 < m2 < direct_jumps(c, instrs, n).len()
            ==> #[trigger] direct_jumps(c, instrs, n)[m1].0 < #[trigger] direct_jumps(c, instrs, n)[m2].0,
        forall|k: int| 0 <= k < n && #[trigger] is_direct_jump(instrs[k])
            ==> direct_jumps(c, instrs, n).contains(jump_entry(c, instrs, k)),
        forall|m: int, k: int|
            #![trigger direct_jumps(c, instrs, n)[m], start_of(c, instrs, k as nat)]
            0 <= m < direct_jumps(c, instrs, n).len() && 0 <= k < n && start_of(c, instrs, k as nat)
                <= direct_jumps(c, instrs, n)[m].0 < start_of(c, instrs, (k + 1) as nat)
                ==> is_direct_jump(instrs[k]) && direct_jumps(c, instrs, n)[m].0 == last_of(c, instrs, k),
    decreases n,
{
    if n > 0 {
        let j = (n - 1) as nat;
        lemma_code_upto(c, instrs, n);
        assert(start_of(c, instrs, j) <= start_of(c, instrs, n));
        lemma_direct_entries(c, instrs, j);
        lemma_jumps_in_code(c, instrs, j);
        lemma_inst_code_len(c, instrs[j as int], j as int);
        let prev = direct_jumps(c, instrs, j);
        let all = direct_jumps(c, instrs, n);
        if is_direct_jump(instrs[j as int]) {
            assert(code_upto(c, instrs, n) == code_upto(c, instrs, j) + inst_code(c, instrs[j as int], j as int));
            assert(all == prev.push(jump_entry(c, instrs, j as int)));
            assert forall|k: int| 0 <= k < n && #[trigger] is_direct_jump(instrs[k]) implies all.contains(
                jump_entry(c, instrs, k),
            ) by {
                if k < j {
                    let m = choose|m: int| 0 <= m < prev.len() && prev[m] == jump_entry(c, instrs, k);
                    assert(all[m] == jump_entry(c, instrs, k));
                } else {
                    assert(all[prev.len() as int] == jump_entry(c, instrs, k));
                }
            }
        } else {
            assert(all == prev);
        }
        lemma_code_upto(c, instrs, j);
        assert forall|m: int, k: int|
            #![trigger all[m], start_of(c, instrs, k as nat)]
            0 <= m < all.len() && 0 <= k < n && start_of(c, instrs, k as nat) <= all[m].0 < start_of(c, instrs, (k + 1) as nat)
            implies is_direct_jump(instrs[k]) && all[m].0 == last_of(c, instrs, k) by {
            if m < prev.len() {
                assert(all[m] == prev[m]);
                assert(prev[m].0 < start_of(c, instrs, j));
                if k < j {
                    assert(prev[m].0 < start_of(c, instrs, (k + 1) as nat));
                }
            } else {
                if k < j {
                    assert(start_of(c, instrs, (k + 1) as nat) <= start_of(c, instrs, j));
                }
            }
        }
    }
}

/// Every JALR's jump is among the JALR jumps, and no branch's or JAL's is.
proof fn lemma_indirect_entries(c: CompilerConfig, instrs: Seq<Instruction>, n: nat)
    requires
        n <= instrs.len(),
        n <= usize::MAX,
        start_of(c, instrs, n) <= usize::MAX,
    ensures
        forall|k: int| 0 <= k < n && #[trigger] instrs[k] is Jalr
            ==> indirect_jumps(c, instrs, n).contains(last_of(c, instrs, k) as usize),
        forall|k: int| 0 <= k < n && #[trigger] is_direct_jump(instrs[k])
            ==> !indirect_jumps(c, instrs, n).contains(last_of(c, instrs, k) as usize),
        forall|m: int, k: int|
            #![trigger indirect_jumps(c, instrs, n)[m], start_of(c, instrs, k as nat)]
            0 <= m < indirect_jumps(c, instrs, n).len() && 0 <= k < n && start_of(c, instrs, k as nat)
                <= indirect_jumps(c, instrs, n)[m] < start_of(c, instrs, (k + 1) as nat)
                ==> instrs[k] is Jalr && indirect_jumps(c, instrs, n)[m] == last_of(c, instrs, k),
    decreases n,
{
    if n > 0 {
        let j = (n - 1) as nat;
        lemma_code_upto(c, instrs, n);
        assert(start_of(c, instrs, j) <= start_of(c, instrs, n));
        lemma_indirect_entries(c, instrs, j);
        lemma_jumps_in_code(c, instrs, j);
        lemma_inst_code_len(c, instrs[j as int], j as int);
        let prev = indirect_jumps(c, instrs, j);
        let all = indirect_jumps(c, instrs, n);
        assert(code_upto(c, instrs, n) == code_upto(c, instrs, j) + inst_code(c, instrs[j as int], j as int));
        if instrs[j as int] is Jalr {
            assert(all == prev.push(last_of(c, instrs, j as int) as usize));
            assert forall|k: int| 0 <= k < n && #[trigger] instrs[k] is Jalr implies all.contains(
                last_of(c, instrs, k) as usize,
            ) by {
                if k < j {
                    let m = choose|m: int| 0 <= m < prev.len() && prev[m] == last_of(c, instrs, k) as usize;
                    assert(all[m] == last_of(c, instrs, k) as usize);
                } else {
                    assert(all[prev.len() as int] == last_of(c, instrs, k) as usize);
                }
            }
            assert forall|k: int| 0 <= k < n && #[trigger] is_direct_jump(instrs[k]) implies !all.contains(
                last_of(c, instrs, k) as usize,
            ) by {
                lemma_last_of_grows(c, instrs, k, j as int);
                lemma_code_upto(c, instrs, k as nat);
                lemma_inst_code_len(c, instrs[k], k);
                assert(code_upto(c, instrs, (k + 1) as nat) == code_upto(c, instrs, k as nat) + inst_code(c, instrs[k], k));
                assert(start_of(c, instrs, (k + 1) as nat) <= start_of(c, instrs, n));
                assert(0 <= last_of(c, instrs, k) < last_of(c, instrs, j as int) < start_of(c, instrs, n));
                if all.contains(last_of(c, instrs, k) as usize) {
                    let m = choose|m: int| 0 <= m < all.len() && all[m] == last_of(c, instrs, k) as usize;
                    if m < prev.len() {
                        assert(prev.contains(last_of(c, instrs, k) as usize));
                    }
                }
            }
        } else {
            assert(all == prev);
            assert forall|k: int| 0 <= k < n && #[trigger] is_direct_jump(instrs[k]) implies !all.contains(
                last_of(c, instrs, k) as usize,
            ) by {
                if k == j {
                    if all.contains(last_of(c, instrs, k) as usize) {
                        let m = choose|m: int| 0 <= m < all.len() && all[m] == last_of(c, instrs, k) as usize;
                        assert(all[m] < start_of(c, instrs, j));
                    }
                }
            }
        }
        lemma_code_upto(c, instrs, j);
        assert forall|m: int, k: int|
            #![trigger all[m], start_of(c, instrs, k as nat)]
            0 <= m < all.len() && 0 <= k < n && start_of(c, instrs, k as nat) <= all[m] < start_of(c, instrs, (k + 1) as nat)
            implies instrs[k] is Jalr && all[m] == last_of(c, instrs, k) by {
            if m < prev.len() {
                assert(all[m] == prev[m]);
                assert(prev[m] < start_of(c, instrs, j));
                if k < j {
                    assert(prev[m] < start_of(c, instrs, (k + 1) as nat));
                }
            } else {
                if k < j {
                    assert(start_of(c, instrs, (k + 1) as nat) <= start_of(c, instrs, j));
                }
            }
        }
    }
}

/// Some jump of `fixups` is at position `i`.
pub open spec fn is_fixup_position(fixups: Seq<(usize, usize)>, i: int) -> bool {
    exists|m: int| 0 <= m < fixups.len() && fixups[m].0 == i
}

/// Resolution gives each jump the offset that lands on its target's position, and
/// changes nothing else.
proof fn lemma_resolve_sets(p: Seq<SvmInstruction>, fixups: Seq<(usize, usize)>, map: Seq<usize>)
    requires
        forall|m: int| 0 <= m < fixups.len() ==> #[trigger] fixups[m].0 < p.len(),
        forall|m1: int, m2: int| 0 <= m1 < m2 < fixups.len() ==> #[trigger] fixups[m1].0 < #[trigger] fixups[m2].0,
        resolve(p, fixups, map) is Ok,
    ensures
        ({
            let q = resolve(p, fixups, map)->Ok_0;
            &&& q.len() == p.len()
            &&& forall|i: int| 0 <= i < p.len() ==> #[trigger] q[i] == SvmInstruction { offset: q[i].offset, ..p[i] }
            &&& forall|m: int| 0 <= m < fixups.len() ==> (#[trigger] fixups[m]).1 < map.len()
                && q[fixups[m].0 as int].offset == map[fixups[m].1 as int] - fixups[m].0 - 1
            &&& forall|i: int| 0 <= i < p.len() && !is_fixup_position(fixups, i) ==> #[trigger] q[i] == p[i]
        }),
    decreases fixups.len(),
{
    if fixups.len() > 0 {
        let rest = fixups.drop_last();
        assert forall|m1: int, m2: int| 0 <= m1 < m2 < rest.len() implies #[trigger] rest[m1].0 < #[trigger] rest[m2].0 by {
            assert(rest[m1] == fixups[m1] && rest[m2] == fixups[m2]);
        }
        lemma_resolve_sets(p, rest, map);
        let q0 = resolve(p, rest, map)->Ok_0;
        let (at, target) = fixups.last();
        let q = resolve(p, fixups, map)->Ok_0;
        let off = map[target as int] - at - 1;
        assert(q == q0.update(at as int, SvmInstruction { offset: off as i16, ..q0[at as int] }));
        assert forall|m: int| 0 <= m < fixups.len() implies (#[trigger] fixups[m]).1 < map.len()
            && q[fixups[m].0 as int].offset == map[fixups[m].1 as int] - fixups[m].0 - 1 by {
            if m < rest.len() {
                assert(rest[m] == fixups[m]);
            }
        }
        assert forall|i: int| 0 <= i < p.len() && !is_fixup_position(fixups, i) implies #[trigger] q[i] == p[i] by {
            if is_fixup_position(rest, i) {
                let m = choose|m: int| 0 <= m < rest.len() && rest[m].0 == i;
                assert(fixups[m] == rest[m]);
            }
            assert(fixups[fixups.len() - 1].0 == at);
        }
    }
}

/// Pointing the JALR jumps at the table changes nothing but their offsets.
proof fn lemma_resolve_indirect_sets(p: Seq<SvmInstruction>, ats: Seq<usize>, start: int)
    requires
        forall|m: int| 0 <= m < ats.len() ==> #[trigger] ats[m] < p.len(),
        resolve_indirect(p, ats, start) is Ok,
    ensures
        ({
            let q = resolve_indirect(p, ats, start)->Ok_0;
            &&& q.len() == p.len()
            &&& forall|i: int| 0 <= i < p.len() ==> #[trigger] q[i] == SvmInstruction { offset: q[i].offset, ..p[i] }
            &&& forall|i: int| 0 <= i < p.len() && !ats.contains(i as usize) ==> #[trigger] q[i] == p[i]
            &&& forall|m: int| 0 <= m < ats.len() ==> q[(#[trigger] ats[m]) as int].offset == start - ats[m] - 1
        }),
    decreases ats.len(),
{
    if ats.len() > 0 {
        let rest = ats.drop_last();
        lemma_resolve_indirect_sets(p, rest, start);
        let q0 = resolve_indirect(p, rest, start)->Ok_0;
        let at = ats.last();
        let q = resolve_indirect(p, ats, start)->Ok_0;
        assert(q == q0.update(at as int, SvmInstruction { offset: (start - at - 1) as i16, ..q0[at as int] }));
        assert forall|i: int| 0 <= i < p.len() && !ats.contains(i as usize) implies #[trigger] q[i] == p[i] by {
            if rest.contains(i as usize) {
                let m = choose|m: int| 0 <= m < rest.len() && rest[m] == i as usize;
                assert(ats[m] == i as usize);
            }
            assert(ats[ats.len() - 1] == at);
        }
        assert forall|m: int| 0 <= m < ats.len() implies q[(#[trigger] ats[m]) as int].offset == start - ats[m] - 1 by {
            if m < rest.len() {
                assert(rest[m] == ats[m]);
            }
        }
    }
}

/// A compiled program is the prologue and each instruction's code, in order, then
/// (where there is a JALR) the return dispatch table, then the epilogue; of the
/// instructions' code only the offsets of jumps differ. The jump of each branch and
/// JAL lands on the first instruction of the code of the instruction it names, which
/// is one of the program's instructions or the end of the last one; the jump of each
/// JALR lands on the dispatch table.
pub proof fn lemma_compiled_jumps_land(c: CompilerConfig, instrs: Seq<Instruction>)
    requires
        compilable(c, instrs.len()),
        start_of(c, instrs, instrs.len()) <= usize::MAX,
        compile_outcome(c, instrs) is Program,
    ensures
        ({
            let p = compile_outcome(c, instrs)->Program_0;
            let n = instrs.len();
            let code = code_upto(c, instrs, n);
            &&& p.len() >= code.len() + epilogue(c).len()
            &&& p.len() <= code.len() + 2 * n + 12
            &&& forall|i: int| 0 <= i < code.len() ==> #[trigger] p[i] == SvmInstruction { offset: p[i].offset, ..code[i] }
            &&& p.subrange(p.len() - epilogue(c).len(), p.len() as int) == epilogue(c)
            &&& forall|k: int| 0 <= k < n && #[trigger] is_direct_jump(instrs[k]) ==> {
                let at = last_of(c, instrs, k);
                let t = jump_target_index(instrs[k], k);
                &&& t <= n
                &&& at + 1 + p[at].offset == start_of(c, instrs, t as nat)
            }
            &&& forall|k: int| 0 <= k < n && #[trigger] instrs[k] is Jalr ==> {
                let at = last_of(c, instrs, k);
                at + 1 + p[at].offset == start_of(c, instrs, n)
            }
        }),
{
    let n = instrs.len();
    let map = position_map(c, instrs);
    let code = code_upto(c, instrs, n);
    let fixups = direct_jumps(c, instrs, n);
    let ats = indirect_jumps(c, instrs, n);
    lemma_code_upto(c, instrs, n);
    lemma_jumps_in_code(c, instrs, n);
    lemma_direct_entries(c, instrs, n);
    lemma_indirect_entries(c, instrs, n);
    assert(first_unknown(instrs, n) is None);
    lemma_resolve_sets(code, fixups, map);
    let p1 = resolve(code, fixups, map)->Ok_0;
    let p = compile_outcome(c, instrs)->Program_0;
    assert forall|k: int| 0 <= k < n && #[trigger] is_direct_jump(instrs[k]) implies ({
        let at = last_of(c, instrs, k);
        let t = jump_target_index(instrs[k], k);
        &&& t <= n
        &&& at + 1 + p1[at].offset == start_of(c, instrs, t as nat)
        &&& 0 <= at < code.len()
    }) by {
        let e = jump_entry(c, instrs, k);
        let m = choose|m: int| 0 <= m < fixups.len() && fixups[m] == e;
        assert(fixups[m] == e);
        lemma_inst_code_len(c, instrs[k], k);
        assert(code_upto(c, instrs, (k + 1) as nat) == code_upto(c, instrs, k as nat) + inst_code(c, instrs[k], k));
        assert(start_of(c, instrs, (k + 1) as nat) <= start_of(c, instrs, n));
        assert(start_of(c, instrs, e.1 as nat) <= start_of(c, instrs, n));
    }
    assert forall|k: int| 0 <= k < n && #[trigger] instrs[k] is Jalr implies 0 <= last_of(c, instrs, k) < code.len() by {
        lemma_inst_code_len(c, instrs[k], k);
        assert(code_upto(c, instrs, (k + 1) as nat) == code_upto(c, instrs, k as nat) + inst_code(c, instrs[k], k));
        assert(start_of(c, instrs, (k + 1) as nat) <= start_of(c, instrs, n));
    }
    if ats.len() == 0 {
        assert(p == p1 + epilogue(c));
        assert(p.subrange(p.len() - epilogue(c).len(), p.len() as int) =~= epilogue(c));
        assert forall|k: int| 0 <= k < n && #[trigger] instrs[k] is Jalr implies false by {
            assert(ats.contains(last_of(c, instrs, k) as usize));
        }
    } else {
        let start = p1.len() as int;
        let d = dispatch_table(c, return_sites(instrs, n), start, map)->Ok_0;
        let base = p1 + d + seq![SvmInstruction::exit()];
        lemma_resolve_indirect_sets(base, ats, start);
        let p3 = resolve_indirect(base, ats, start)->Ok_0;
        assert(p == p3 + epilogue(c));
        lemma_dispatch_len(c, return_sites(instrs, n), start, map);
        assert(p.subrange(p.len() - epilogue(c).len(), p.len() as int) =~= epilogue(c));
        assert forall|i: int| 0 <= i < code.len() implies #[trigger] p[i] == SvmInstruction { offset: p[i].offset, ..code[i] } by {
            assert(base[i] == p1[i]);
            assert(p[i] == p3[i]);
        }
        assert forall|k: int| 0 <= k < n && #[trigger] is_direct_jump(instrs[k]) implies ({
            let at = last_of(c, instrs, k);
            let t = jump_target_index(instrs[k], k);
            &&& t <= n
            &&& at + 1 + p[at].offset == start_of(c, instrs, t as nat)
        }) by {
            let at = last_of(c, instrs, k);
            assert(!ats.contains(at as usize));
            assert(base[at] == p1[at]);
            assert(p[at] == p3[at]);
        }
        assert forall|k: int| 0 <= k < n && #[trigger] instrs[k] is Jalr implies ({
            let at = last_of(c, instrs, k);
            at + 1 + p[at].offset == start_of(c, instrs, n)
        }) by {
            let at = last_of(c, instrs, k);
            assert(ats.contains(at as usize));
            let m = choose|m: int| 0 <= m < ats.len() && ats[m] == at as usize;
            assert(p[at] == p3[at]);
        }
    }
}

/// In a compiled program, the code of each instruction other than a branch, JAL or
/// JALR stands exactly as compiled, from the position where its code starts.
pub proof fn lemma_compiled_code_stands(c: CompilerConfig, instrs: Seq<Instruction>, k: int)
    requires
        compilable(c, instrs.len()),
        start_of(c, instrs, instrs.len()) <= usize::MAX,
        compile_outcome(c, instrs) is Program,
        0 <= k < instrs.len(),
        !is_direct_jump(instrs[k]),
        !(instrs[k] is Jalr),
    ensures
        code_at(compile_outcome(c, instrs)->Program_0, start_of(c, instrs, k as nat) as int, inst_code(c, instrs[k], k)),
{
    let n = instrs.len();
    let map = position_map(c, instrs);
    let code = code_upto(c, instrs, n);
    let fixups = direct_jumps(c, instrs, n);
    let ats = indirect_jumps(c, instrs, n);
    let own = inst_code(c, instrs[k], k);
    let start = start_of(c, instrs, k as nat) as int;
    lemma_code_upto(c, instrs, n);
    lemma_jumps_in_code(c, instrs, n);
    lemma_direct_entries(c, instrs, n);
    lemma_indirect_entries(c, instrs, n);
    lemma_compiled_jumps_land(c, instrs);
    assert(first_unknown(instrs, n) is None);
    lemma_resolve_sets(code, fixups, map);
    let p1 = resolve(code, fixups, map)->Ok_0;
    let p = compile_outcome(c, instrs)->Program_0;
    assert(code_upto(c, instrs, (k + 1) as nat) == code_upto(c, instrs, k as nat) + own);
    assert(start_of(c, instrs, (k + 1) as nat) <= start_of(c, instrs, n));
    assert forall|i: int| 0 <= i < own.len() implies #[trigger] p[start + i] == own[i] by {
        let j = start + i;
        let upto = code_upto(c, instrs, (k + 1) as nat);
        assert(code.subrange(0, start_of(c, instrs, (k + 1) as nat) as int) == upto);
        assert(code[j] == code.subrange(0, start_of(c, instrs, (k + 1) as nat) as int)[j]);
        assert(upto[j] == own[i]);
        assert(code[j] == own[i]);
        if is_fixup_position(fixups, j) {
            let m = choose|m: int| 0 <= m < fixups.len() && fixups[m].0 == j;
            assert(start_of(c, instrs, k as nat) <= fixups[m].0 < start_of(c, instrs, (k + 1) as nat));
        }
        assert(p1[j] == code[j]);
        if ats.len() == 0 {
            assert(p == p1 + epilogue(c));
        } else {
            let dstart = p1.len() as int;
            let d = dispatch_table(c, return_sites(instrs, n), dstart, map)->Ok_0;
            let base = p1 + d + seq![SvmInstruction::exit()];
            lemma_resolve_indirect_sets(base, ats, dstart);
            let p3 = resolve_indirect(base, ats, dstart)->Ok_0;
            if ats.contains(j as usize) {
                let m = choose|m: int| 0 <= m < ats.len() && ats[m] == j as usize;
                assert(start_of(c, instrs, k as nat) <= ats[m] < start_of(c, instrs, (k + 1) as nat));
            }
            assert(base[j] == p1[j]);
            assert(p == p3 + epilogue(c));
            assert(p[j] == p3[j]);
        }
    }
}

/// In a compiled program, the code of each branch, JAL and JALR stands as compiled
/// but for its jump's offset, which lands on the first instruction of the code of
/// the instruction it names (for a JALR, on the dispatch table).
#[verifier::spinoff_prover]
#[verifier::rlimit(60)]
pub proof fn lemma_compiled_jump_code(c: CompilerConfig, instrs: Seq<Instruction>, k: int)
    requires
        compilable(c, instrs.len()),
        start_of(c, instrs, instrs.len()) <= usize::MAX,
        compile_outcome(c, instrs) is Program,
        0 <= k < instrs.len(),
        is_direct_jump(instrs[k]) || instrs[k] is Jalr,
    ensures
        ({
            let p = compile_outcome(c, instrs)->Program_0;
            let own = inst_code(c, instrs[k], k);
            let start = start_of(c, instrs, k as nat) as int;
            let off = p[last_of(c, instrs, k)].offset;
            &&& jump_code_at(p, start, own, off)
            &&& start + own.len() == last_of(c, instrs, k) + 1
            &&& is_direct_jump(instrs[k]) ==> jump_target_index(instrs[k], k) <= instrs.len()
            &&& is_direct_jump(instrs[k]) ==> start + own.len() + off == start_of(
                c,
                instrs,
                jump_target_index(instrs[k], k) as nat,
            )
            &&& instrs[k] is Jalr ==> start + own.len() + off == start_of(c, instrs, instrs.len())
        }),
{
    let n = instrs.len();
    let map = position_map(c, instrs);
    let code = code_upto(c, instrs, n);
    let fixups = direct_jumps(c, instrs, n);
    let ats = indirect_jumps(c, instrs, n);
    let own = inst_code(c, instrs[k], k);
    let start = start_of(c, instrs, k as nat) as int;
    let p = compile_outcome(c, instrs)->Program_0;
    lemma_code_upto(c, instrs, n);
    lemma_jumps_in_code(c, instrs, n);
    lemma_direct_entries(c, instrs, n);
    lemma_indirect_entries(c, instrs, n);
    lemma_compiled_jumps_land(c, instrs);
    lemma_inst_code_len(c, instrs[k], k);
    assert(first_unknown(instrs, n) is None);
    lemma_resolve_sets(code, fixups, map);
    let p1 = resolve(code, fixups, map)->Ok_0;
    let upto = code_upto(c, instrs, (k + 1) as nat);
    assert(upto == code_upto(c, instrs, k as nat) + own);
    assert(start_of(c, instrs, (k + 1) as nat) <= start_of(c, instrs, n));
    let at = last_of(c, instrs, k);
    assert forall|i: int| 0 <= i < own.len() implies #[trigger] code[start + i] == own[i] by {
        assert(code.subrange(0, start_of(c, instrs, (k + 1) as nat) as int) == upto);
        assert(code[start + i] == code.subrange(0, start_of(c, instrs, (k + 1) as nat) as int)[start + i]);
        assert(upto[start + i] == own[i]);
    }
    assert forall|i: int| 0 <= i < own.drop_last().len() implies #[trigger] p[start + i] == own.drop_last()[i] by {
        let j = start + i;
        assert(code[j] == own[i]);
        if is_fixup_position(fixups, j) {
            let m = choose|m: int| 0 <= m < fixups.len() && fixups[m].0 == j;
            assert(start_of(c, instrs, k as nat) <= fixups[m].0 < start_of(c, instrs, (k + 1) as nat));
        }
        assert(p1[j] == code[j]);
        if ats.len() == 0 {
            assert(p == p1 + epilogue(c));
        } else {
            let dstart = p1.len() as int;
            let d = dispatch_table(c, return_sites(instrs, n), dstart, map)->Ok_0;
            let base = p1 + d + seq![SvmInstruction::exit()];
            lemma_resolve_indirect_sets(base, ats, dstart);
            let p3 = resolve_indirect(base, ats, dstart)->Ok_0;
            if ats.contains(j as usize) {
                let m = choose|m: int| 0 <= m < ats.len() && ats[m] == j as usize;
                assert(start_of(c, instrs, k as nat) <= ats[m] < start_of(c, instrs, (k + 1) as nat));
            }
            assert(base[j] == p1[j]);
            assert(p == p3 + epilogue(c));
            assert(p[j] == p3[j]);
        }
    }
    assert(code[at] == own.last()) by {
        assert(code[start + (own.len() - 1)] == own[own.len() - 1]);
    }
    assert(p[at] == SvmInstruction { offset: p[at].offset, ..own.last() });
}

/// A compiled program begins with the prologue, as compiled.
#[verifier::spinoff_prover]
#[verifier::rlimit(60)]
pub proof fn lemma_compiled_prologue(c: CompilerConfig, instrs: Seq<Instruction>)
    requires
        compilable(c, instrs.len()),
        start_of(c, instrs, instrs.len()) <= usize::MAX,
        compile_outcome(c, instrs) is Program,
    ensures
        code_at(compile_outcome(c, instrs)->Program_0, 0, prologue(c)),
{
    let n = instrs.len();
    let map = position_map(c, instrs);
    let code = code_upto(c, instrs, n);
    let fixups = direct_jumps(c, instrs, n);
    let ats = indirect_jumps(c, instrs, n);
    let p = compile_outcome(c, instrs)->Program_0;
    lemma_code_upto(c, instrs, n);
    lemma_jumps_in_code(c, instrs, n);
    lemma_direct_entries(c, instrs, n);
    lemma_indirect_entries(c, instrs, n);
    assert(first_unknown(instrs, n) is None);
    lemma_resolve_sets(code, fixups, map);
    let p1 = resolve(code, fixups, map)->Ok_0;
    assert(code.subrange(0, start_of(c, instrs, 0) as int) == prologue(c));
    assert forall|i: int| 0 <= i < 3 implies #[trigger] p[0 + i] == prologue(c)[i] by {
        assert(code[i] == code.subrange(0, 3)[i]);
        if is_fixup_position(fixups, i) {
            let m = choose|m: int| 0 <= m < fixups.len() && fixups[m].0 == i;
            lemma_direct_start(c, instrs, n);
            assert(start_of(c, instrs, 0) <= fixups[m].0);
        }
        assert(p1[i] == code[i]);
        if ats.len() == 0 {
            assert(p == p1 + epilogue(c));
        } else {
            let dstart = p1.len() as int;
            let d = dispatch_table(c, return_sites(instrs, n), dstart, map)->Ok_0;
            let base = p1 + d + seq![SvmInstruction::exit()];
            lemma_resolve_indirect_sets(base, ats, dstart);
            let p3 = resolve_indirect(base, ats, dstart)->Ok_0;
            if ats.contains(i as usize) {
                let m = choose|m: int| 0 <= m < ats.len() && ats[m] == i as usize;
                assert(ats[m] < start_of(c, instrs, n));
                lemma_indirect_entries(c, instrs, n);
                assert(start_of(c, instrs, 0) <= ats[m]) by {
                    lemma_indirect_start(c, instrs, n);
                }
            }
            assert(base[i] == p1[i]);
            assert(p == p3 + epilogue(c));
            assert(p[i] == p3[i]);
        }
    }
}

/// The JALR jumps lie after the prologue.
proof fn lemma_indirect_start(c: CompilerConfig, instrs: Seq<Instruction>, n: nat)
    requires
        n <= instrs.len(),
        n <= usize::MAX,
        start_of(c, instrs, n) <= usize::MAX,
    ensures
        forall|m: int| 0 <= m < indirect_jumps(c, instrs, n).len() ==> start_of(c, instrs, 0) <= #[trigger] indirect_jumps(
            c,
            instrs,
            n,
        )[m],
    decreases n,
{
    if n > 0 {
        let j = (n - 1) as nat;
        lemma_code_upto(c, instrs, n);
        assert(start_of(c, instrs, j) <= start_of(c, instrs, n));
        lemma_indirect_start(c, instrs, j);
        lemma_inst_code_len(c, instrs[j as int], j as int);
        assert(code_upto(c, instrs, n) == code_upto(c, instrs, j) + inst_code(c, instrs[j as int], j as int));
        lemma_code_upto(c, instrs, j);
        let prev = indirect_jumps(c, instrs, j);
        let all = indirect_jumps(c, instrs, n);
        assert forall|m: int| 0 <= m < all.len() implies start_of(c, instrs, 0) <= #[trigger] all[m] by {
            if m < prev.len() {
                assert(all[m] == prev[m]);
            }
        }
    }
}

/// The jumps of branches and JALs lie after the prologue.
proof fn lemma_direct_start(c: CompilerConfig, instrs: Seq<Instruction>, n: nat)
    requires
        n <= instrs.len(),
        n <= usize::MAX,
        start_of(c, instrs, n) <= usize::MAX,
    ensures
        forall|m: int| 0 <= m < direct_jumps(c, instrs, n).len() ==> start_of(c, instrs, 0) <= #[trigger] direct_jumps(
            c,
            instrs,
            n,
        )[m].0,
    decreases n,
{
    if n > 0 {
        let j = (n - 1) as nat;
        lemma_code_upto(c, instrs, n);
        assert(start_of(c, instrs, j) <= start_of(c, instrs, n));
        lemma_direct_start(c, instrs, j);
        lemma_inst_code_len(c, instrs[j as int], j as int);
        assert(code_upto(c, instrs, n) == code_upto(c, instrs, j) + inst_code(c, instrs[j as int], j as int));
        lemma_code_upto(c, instrs, j);
        let prev = direct_jumps(c, instrs, j);
        let all = direct_jumps(c, instrs, n);
        assert forall|m: int| 0 <= m < all.len() implies start_of(c, instrs, 0) <= #[trigger] all[m].0 by {
            if m < prev.len() {
                assert(all[m] == prev[m]);
            }
        }
    }
}

/// In a compiled program with a JALR, the dispatch table for the program's return
/// sites stands, as built, right after the code of the last instruction.
#[verifier::spinoff_prover]
#[verifier::rlimit(60)]
pub proof fn lemma_compiled_dispatch(c: CompilerConfig, instrs: Seq<Instruction>)
    requires
        compilable(c, instrs.len()),
        start_of(c, instrs, instrs.len()) <= usize::MAX,
        compile_outcome(c, instrs) is Program,
        compile_outcome(c, instrs)->Program_0.len() <= usize::MAX,
        indirect_jumps(c, instrs, instrs.len()).len() > 0,
    ensures
        ({
            let n = instrs.len();
            let start = start_of(c, instrs, n) as int;
            let table = dispatch_table(c, return_sites(instrs, n), start, position_map(c, instrs));
            &&& table is Ok
            &&& code_at(compile_outcome(c, instrs)->Program_0, start, table->Ok_0)
        }),
{
    let n = instrs.len();
    let map = position_map(c, instrs);
    let code = code_upto(c, instrs, n);
    let fixups = direct_jumps(c, instrs, n);
    let ats = indirect_jumps(c, instrs, n);
    let p = compile_outcome(c, instrs)->Program_0;
    lemma_code_upto(c, instrs, n);
    lemma_jumps_in_code(c, instrs, n);
    lemma_direct_entries(c, instrs, n);
    lemma_indirect_entries(c, instrs, n);
    assert(first_unknown(instrs, n) is None);
    lemma_resolve_sets(code, fixups, map);
    let p1 = resolve(code, fixups, map)->Ok_0;
    let start = p1.len() as int;
    assert(start == start_of(c, instrs, n));
    let d = dispatch_table(c, return_sites(instrs, n), start, map)->Ok_0;
    let base = p1 + d + seq![SvmInstruction::exit()];
    lemma_resolve_indirect_sets(base, ats, start);
    let p3 = resolve_indirect(base, ats, start)->Ok_0;
    assert(p == p3 + epilogue(c));
    assert forall|i: int| 0 <= i < d.len() implies #[trigger] p[start + i] == d[i] by {
        let j = start + i;
        assert(!ats.contains(j as usize)) by {
            if ats.contains(j as usize) {
                let m = choose|m: int| 0 <= m < ats.len() && ats[m] == j as usize;
                assert(ats[m] < start_of(c, instrs, n));
            }
        }
        assert(base[j] == d[i]);
        assert(p3[j] == base[j]);
        assert(p[j] == p3[j]);
    }
}

} // verus!
