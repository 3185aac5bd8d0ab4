//! The crate-level entry points.

use rv32im_svm::{compile_and_execute, compile_binary, execute, Instruction, Register};

#[test]
fn test_compile_and_execute() {
    let instructions = vec![
        Instruction::Addi { rd: Register::A0, rs1: Register::ZERO, imm: 100 },
        Instruction::Ecall,
    ];
    let result = compile_and_execute(&instructions).unwrap();
    assert_eq!(result, 100);
}

#[test]
fn test_binary_compilation() {
    // addi a0, zero, 42 = 0x02a00513
    // ecall = 0x00000073
    let binary = vec![0x02a00513, 0x00000073];
    let program = compile_binary(&binary).unwrap();
    let result = execute(&program).unwrap();
    assert_eq!(result, 42);
}
