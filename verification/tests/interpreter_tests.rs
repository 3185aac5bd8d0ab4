//! Running sBPF programs on the interpreter.

use rv32im_svm::svm::{opcodes, MemorySize, SvmInstruction, SvmProgram, SvmRegister, SvmVm};

#[test]
fn test_simple_program() {
    let mut program = SvmProgram::new();
    program.push(SvmInstruction::mov64_imm(SvmRegister::R0, 42));
    program.push(SvmInstruction::exit());

    let mut vm = SvmVm::new(4096);
    let result = vm.execute(&program).unwrap();
    assert_eq!(result, 42);
}

#[test]
fn test_arithmetic() {
    let mut program = SvmProgram::new();
    program.push(SvmInstruction::mov64_imm(SvmRegister::R0, 10));
    program.push(SvmInstruction::add64_imm(SvmRegister::R0, 5));
    program.push(SvmInstruction::exit());

    let mut vm = SvmVm::new(4096);
    let result = vm.execute(&program).unwrap();
    assert_eq!(result, 15);
}

#[test]
fn test_conditional_jump() {
    let mut program = SvmProgram::new();
    program.push(SvmInstruction::mov64_imm(SvmRegister::R0, 5));
    program.push(SvmInstruction::mov64_imm(SvmRegister::R1, 5));
    // jeq r0, r1, +1 (skip next instruction)
    program.push(SvmInstruction::jmp_reg(opcodes::JEQ, SvmRegister::R0, SvmRegister::R1, 1));
    program.push(SvmInstruction::mov64_imm(SvmRegister::R0, 0)); // Should be skipped
    program.push(SvmInstruction::exit());

    let mut vm = SvmVm::new(4096);
    let result = vm.execute(&program).unwrap();
    assert_eq!(result, 5);
}

#[test]
fn test_memory_operations() {
    let mut program = SvmProgram::new();
    // Store 42 at address 100
    program.push(SvmInstruction::mov64_imm(SvmRegister::R1, 100));
    program.push(SvmInstruction::st(MemorySize::Word, SvmRegister::R1, 0, 42));
    // Load it back
    program.push(SvmInstruction::ldx(MemorySize::Word, SvmRegister::R0, SvmRegister::R1, 0));
    program.push(SvmInstruction::exit());

    let mut vm = SvmVm::new(4096);
    let result = vm.execute(&program).unwrap();
    assert_eq!(result, 42);
}

#[test]
fn test_multiplication() {
    let mut program = SvmProgram::new();
    program.push(SvmInstruction::mov64_imm(SvmRegister::R0, 6));
    program.push(SvmInstruction::mul64_imm(SvmRegister::R0, 7));
    program.push(SvmInstruction::exit());

    let mut vm = SvmVm::new(4096);
    let result = vm.execute(&program).unwrap();
    assert_eq!(result, 42);
}
