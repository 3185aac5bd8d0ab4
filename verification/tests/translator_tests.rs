//! Compiling small programs and running them.

use rv32im_svm::compiler::Compiler;
use rv32im_svm::riscv::{Instruction, Register};
use rv32im_svm::svm::SvmVm;


fn run_rv_program(instructions: &[Instruction]) -> u64 {
    let mut compiler = Compiler::new();
    let program = compiler.compile(instructions).unwrap();
    let mut vm = SvmVm::new(0x20000);
    vm.set_compute_limit(1_000_000);
    vm.execute(&program).unwrap()
}

#[test]
fn test_simple_return() {
    // li a0, 42 (addi a0, x0, 42)
    // ecall (exit)
    let instructions = vec![
        Instruction::Addi { rd: Register::A0, rs1: Register::ZERO, imm: 42 },
        Instruction::Ecall,
    ];
    let result = run_rv_program(&instructions);
    assert_eq!(result, 42);
}

#[test]
fn test_add() {
    // li a0, 10
    // li a1, 20
    // add a0, a0, a1
    // ecall
    let instructions = vec![
        Instruction::Addi { rd: Register::A0, rs1: Register::ZERO, imm: 10 },
        Instruction::Addi { rd: Register::A1, rs1: Register::ZERO, imm: 20 },
        Instruction::Add { rd: Register::A0, rs1: Register::A0, rs2: Register::A1 },
        Instruction::Ecall,
    ];
    let result = run_rv_program(&instructions);
    assert_eq!(result, 30);
}

#[test]
fn test_mul() {
    // li a0, 6
    // li a1, 7
    // mul a0, a0, a1
    // ecall
    let instructions = vec![
        Instruction::Addi { rd: Register::A0, rs1: Register::ZERO, imm: 6 },
        Instruction::Addi { rd: Register::A1, rs1: Register::ZERO, imm: 7 },
        Instruction::Mul { rd: Register::A0, rs1: Register::A0, rs2: Register::A1 },
        Instruction::Ecall,
    ];
    let result = run_rv_program(&instructions);
    assert_eq!(result, 42);
}

#[test]
fn test_branch() {
    // li a0, 5
    // li a1, 5
    // beq a0, a1, skip
    // li a0, 0
    // skip:
    // ecall
    let instructions = vec![
        Instruction::Addi { rd: Register::A0, rs1: Register::ZERO, imm: 5 },
        Instruction::Addi { rd: Register::A1, rs1: Register::ZERO, imm: 5 },
        Instruction::Beq { rs1: Register::A0, rs2: Register::A1, imm: 8 }, // Skip 2 instructions (8 bytes)
        Instruction::Addi { rd: Register::A0, rs1: Register::ZERO, imm: 0 },
        Instruction::Ecall,
    ];
    let result = run_rv_program(&instructions);
    assert_eq!(result, 5);
}
