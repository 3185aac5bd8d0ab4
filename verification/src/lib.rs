//! A compiler from RISC-V rv32im machine code to Solana sBPF bytecode, with an
//! sBPF interpreter to run what it produces.

pub mod compiler;
pub mod riscv;
pub mod svm;
pub mod text;

pub use compiler::{Compiler, CompilerConfig, CompilerError, CompilerResult};
pub use riscv::{decode, Instruction, Register};
pub use svm::{SvmInstruction, SvmProgram, SvmRegister, SvmVm};

use vstd::prelude::*;
use compiler::templates::{compile_outcome, Compiled};
use compiler::translator::{compiled_as, default_config};
use riscv::decoder::decode_spec;
use svm::interpreter::{fresh_state, SvmError};
use svm::semantics::{run, started, Effect, MachineState};

verus! {

/// The machine `execute` runs a program on: 128KB of zeroed memory and a limit of
/// one million compute units.
pub open spec fn execution_machine() -> MachineState {
    MachineState { compute_limit: 1_000_000, ..fresh_state(0x20000) }
}

/// What a run's outcome gives back: the value of `r0` where the program ran to its
/// end, the error where it failed, nothing where the machine could not go on.
pub open spec fn run_result(e: Effect) -> Option<Result<u64, SvmError>> {
    match e {
        Effect::Done(s) => Some(Ok(s.registers[0])),
        Effect::Error(err, _) => Some(Err(err)),
        Effect::Fault => None,
    }
}

/// The result of running `p` on the machine `execute` provides.
pub open spec fn executed(p: Seq<SvmInstruction>) -> Option<Result<u64, SvmError>> {
    run_result(run(started(execution_machine()), p))
}

/// Compile RISC-V binary to SVM program
pub fn compile_binary(binary: &[u32]) -> (r: CompilerResult<SvmProgram>)
    ensures
        binary@.len() >= 0x4000_0000 ==> (r matches Err(CompilerError::ProgramTooLarge(m)) && m == binary@.len()),
        binary@.len() < 0x4000_0000 ==> compiled_as(
            r,
            compile_outcome(default_config(), binary@.map_values(|w: u32| decode_spec(w))),
        ),
{
    let mut compiler = Compiler::new();
    compiler.compile_binary(binary)
}

/// Compile RISC-V instructions to SVM program
pub fn compile(instructions: &[Instruction]) -> (r: CompilerResult<SvmProgram>)
    ensures
        instructions@.len() >= 0x4000_0000 ==> (r matches Err(CompilerError::ProgramTooLarge(m))
            && m == instructions@.len()),
        instructions@.len() < 0x4000_0000 ==> compiled_as(r, compile_outcome(default_config(), instructions@)),
{
    let mut compiler = Compiler::new();
    compiler.compile(instructions)
}

/// Execute a compiled SVM program and return the result
pub fn execute(program: &SvmProgram) -> (r: Result<u64, SvmError>)
    requires
        executed(program.instructions@) is Some,
    ensures
        executed(program.instructions@) == Some(r),
{
    let mut vm = SvmVm::new(0x20000);  // 128KB memory
    vm.set_compute_limit(1_000_000);
    vm.execute(program)
}

/// Execute a compiled SVM program, or give `None` where the run reaches a point
/// where the machine cannot go on.
pub fn execute_checked(program: &SvmProgram) -> (r: Option<Result<u64, SvmError>>)
    ensures
        r == executed(program.instructions@),
{
    let mut vm = SvmVm::new(0x20000);  // 128KB memory
    vm.set_compute_limit(1_000_000);
    vm.execute_checked(program)
}

/// Why compiling and running a program failed.
#[derive(Debug)]
pub enum RunError {
    Compile(CompilerError),
    Execute(SvmError),
}

/// `r` is what compiling to `o` and running the program gives.
pub open spec fn ran_as(r: Result<u64, RunError>, o: Compiled) -> bool {
    match r {
        Err(RunError::Compile(e)) => compiled_as(Err(e), o),
        Ok(v) => o matches Compiled::Program(p) && executed(p) == Some(Ok::<u64, SvmError>(v)),
        Err(RunError::Execute(e)) => o matches Compiled::Program(p) && executed(p) == Some(
            Err::<u64, SvmError>(e),
        ),
    }
}

/// Compile and execute RISC-V instructions
pub fn compile_and_execute(instructions: &[Instruction]) -> (r: Result<u64, RunError>)
    requires
        instructions@.len() < 0x4000_0000 ==> (compile_outcome(default_config(), instructions@) matches Compiled::Program(
            p,
        ) ==> executed(p) is Some),
    ensures
        instructions@.len() >= 0x4000_0000 ==> (r matches Err(RunError::Compile(CompilerError::ProgramTooLarge(m)))
            && m == instructions@.len()),
        instructions@.len() < 0x4000_0000 ==> ran_as(r, compile_outcome(default_config(), instructions@)),
{
    let program = match compile(instructions) {
        Ok(program) => program,
        Err(e) => return Err(RunError::Compile(e)),
    };
    match execute(&program) {
        Ok(v) => Ok(v),
        Err(e) => Err(RunError::Execute(e)),
    }
}

} // verus!
