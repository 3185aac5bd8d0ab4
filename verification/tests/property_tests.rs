//! Error cases, properties on concrete programs, and text forms.

use rv32im_svm::riscv::decoder::words_from_le_bytes;
use rv32im_svm::svm::{opcodes, MemorySize, SvmError, SvmInstruction, SvmProgram, SvmRegister, SvmVm};
use rv32im_svm::{
    Compiler, CompilerConfig, compile, compile_and_execute, compile_binary, decode, execute, execute_checked, CompilerError,
    Instruction, Register, RunError,
};

fn run_program(instructions: Vec<Instruction>) -> u64 {
    let program = compile(&instructions).expect("Compilation failed");
    execute(&program).expect("Execution failed")
}

fn run_svm(instructions: Vec<SvmInstruction>) -> Result<u64, SvmError> {
    let mut program = SvmProgram::new();
    for inst in instructions {
        program.push(inst);
    }
    let mut vm = SvmVm::new(4096);
    vm.execute(&program)
}

// ============================================================================
// Compiler errors
// ============================================================================

#[test]
fn test_unknown_word_is_unsupported() {
    match compile_binary(&[0x02a00513, 0x00000000]) {
        Err(CompilerError::UnsupportedInstruction(m)) => assert_eq!(m, "0x00000000"),
        other => panic!("unexpected outcome: {:?}", other.map(|p| p.len())),
    }
    match compile_binary(&[0xffffffff]) {
        Err(CompilerError::UnsupportedInstruction(m)) => assert_eq!(m, "0xffffffff"),
        other => panic!("unexpected outcome: {:?}", other.map(|p| p.len())),
    }
}

#[test]
fn test_branch_past_end_is_invalid_target() {
    let instructions = vec![
        Instruction::Addi { rd: Register::A0, rs1: Register::ZERO, imm: 1 },
        Instruction::Beq { rs1: Register::A0, rs2: Register::A0, imm: 400 },
        Instruction::Ecall,
    ];
    match compile(&instructions) {
        Err(CompilerError::InvalidBranchTarget(t)) => assert_eq!(t, 101),
        other => panic!("unexpected outcome: {:?}", other.map(|p| p.len())),
    }
}

#[test]
fn test_jump_before_start_is_invalid_target() {
    let instructions = vec![Instruction::Jal { rd: Register::ZERO, imm: -8 }];
    match compile(&instructions) {
        Err(CompilerError::InvalidBranchTarget(t)) => assert_eq!(t, -2),
        other => panic!("unexpected outcome: {:?}", other.map(|p| p.len())),
    }
}

#[test]
fn test_branch_to_end_runs_epilogue() {
    let instructions = vec![
        Instruction::Addi { rd: Register::A0, rs1: Register::ZERO, imm: 7 },
        Instruction::Beq { rs1: Register::ZERO, rs2: Register::ZERO, imm: 8 },
        Instruction::Addi { rd: Register::A0, rs1: Register::ZERO, imm: 9 },
    ];
    assert_eq!(run_program(instructions), 7);
}

#[test]
fn test_compile_and_execute_errors() {
    match compile_and_execute(&[Instruction::Unknown(0x1234)]) {
        Err(RunError::Compile(CompilerError::UnsupportedInstruction(m))) => assert_eq!(m, "0x00001234"),
        other => panic!("unexpected outcome: {:?}", other),
    }
    let instructions = vec![
        Instruction::Lui { rd: Register::A1, imm: 0x0010_0000 },
        Instruction::Lw { rd: Register::A0, rs1: Register::A1, imm: 0 },
        Instruction::Ecall,
    ];
    match compile_and_execute(&instructions) {
        Err(RunError::Execute(e)) => assert_eq!(e, SvmError::MemoryOutOfBounds(0x0010_0000)),
        other => panic!("unexpected outcome: {:?}", other),
    }
}

// ============================================================================
// Calls and returns through the dispatch table
// ============================================================================

#[test]
fn test_jalr_returns_through_dispatch() {
    let instructions = vec![
        Instruction::Addi { rd: Register::A0, rs1: Register::ZERO, imm: 5 },
        Instruction::Jal { rd: Register::RA, imm: 12 },
        Instruction::Addi { rd: Register::A0, rs1: Register::A0, imm: 1 },
        Instruction::Ecall,
        Instruction::Addi { rd: Register::A0, rs1: Register::A0, imm: 10 },
        Instruction::Jalr { rd: Register::ZERO, rs1: Register::RA, imm: 0 },
    ];
    assert_eq!(run_program(instructions), 16);
}

#[test]
fn test_call_computes_remainder_and_high_product() {
    // A called routine leaves -17 % 5 in a0 and the high word of a0 * a1 in a2;
    // the caller returns a0 + a2 as RISC-V computes them: -2 + (-1).
    let instructions = vec![
        Instruction::Addi { rd: Register::A0, rs1: Register::ZERO, imm: -17 },
        Instruction::Addi { rd: Register::A1, rs1: Register::ZERO, imm: 5 },
        Instruction::Jal { rd: Register::RA, imm: 12 },
        Instruction::Add { rd: Register::A0, rs1: Register::A0, rs2: Register::A2 },
        Instruction::Ecall,
        Instruction::Mulh { rd: Register::A2, rs1: Register::A0, rs2: Register::A1 },
        Instruction::Rem { rd: Register::A0, rs1: Register::A0, rs2: Register::A1 },
        Instruction::Jalr { rd: Register::ZERO, rs1: Register::RA, imm: 0 },
    ];
    assert_eq!(run_program(instructions), (-3i64) as u64);
}

#[test]
fn test_ebreak_stops_with_zero() {
    let instructions = vec![
        Instruction::Addi { rd: Register::A0, rs1: Register::ZERO, imm: 7 },
        Instruction::Ebreak,
        Instruction::Addi { rd: Register::A0, rs1: Register::A0, imm: 1 },
        Instruction::Ecall,
    ];
    assert_eq!(run_program(instructions), 0);
}

#[test]
fn test_jalr_to_address_zero_exits() {
    // The dispatch table ends the program with a0 for target address 0.
    let instructions = vec![
        Instruction::Addi { rd: Register::A0, rs1: Register::ZERO, imm: 3 },
        Instruction::Jalr { rd: Register::ZERO, rs1: Register::ZERO, imm: 0 },
        Instruction::Addi { rd: Register::A0, rs1: Register::ZERO, imm: 4 },
        Instruction::Ecall,
    ];
    assert_eq!(run_program(instructions), 3);
}

#[test]
fn test_custom_configuration_on_larger_machine() {
    let config = CompilerConfig {
        regfile_base: 0x9000,
        memory_base: 0x100,
        stack_base: 0x20000,
        initial_pc: 0,
    };
    let instructions = vec![
        Instruction::Addi { rd: Register::A1, rs1: Register::ZERO, imm: 0x40 },
        Instruction::Addi { rd: Register::A2, rs1: Register::ZERO, imm: -300 },
        Instruction::Sh { rs1: Register::A1, rs2: Register::A2, imm: 4 },
        Instruction::Lh { rd: Register::A0, rs1: Register::A1, imm: 4 },
        Instruction::Add { rd: Register::A0, rs1: Register::A0, rs2: Register::SP },
        Instruction::Ecall,
    ];
    let mut compiler = Compiler::with_config(config);
    let program = compiler.compile(&instructions).unwrap();
    let mut vm = SvmVm::new(0x40000);
    vm.set_compute_limit(10_000_000);
    assert_eq!(vm.execute(&program), Ok((0x20000 - 300) as u64));
    // The halfword went to RISC-V address 0x44, which is 0x144 in the machine.
    assert_eq!(vm.read_mem(0x144, MemorySize::Half), Ok(((-300i32) as u16) as u64));

    // Under a limit too small for the run, the same program fails for the budget.
    let mut small = SvmVm::new(0x40000);
    small.set_compute_limit(10);
    assert!(matches!(small.execute(&program), Err(SvmError::ComputeBudgetExceeded(_, 10))));
}

#[test]
fn test_jalr_to_address_zero_returns_a0() {
    let instructions = vec![
        Instruction::Addi { rd: Register::A0, rs1: Register::ZERO, imm: 5 },
        Instruction::Jalr { rd: Register::ZERO, rs1: Register::ZERO, imm: 0 },
    ];
    assert_eq!(run_program(instructions), 5);
}

#[test]
fn test_initial_pc_sets_byte_addresses() {
    let config = CompilerConfig { initial_pc: 0x1000, ..CompilerConfig::default() };
    let mut compiler = Compiler::with_config(config.clone());
    let program = compiler
        .compile(&[Instruction::Auipc { rd: Register::A0, imm: 0 }, Instruction::Ecall])
        .unwrap();
    assert_eq!(execute(&program), Ok(0x1000));

    // Calls and returns go by the same addresses.
    let mut compiler = Compiler::with_config(config);
    let program = compiler
        .compile(&[
            Instruction::Addi { rd: Register::A0, rs1: Register::ZERO, imm: 5 },
            Instruction::Jal { rd: Register::RA, imm: 12 },
            Instruction::Add { rd: Register::A0, rs1: Register::A0, rs2: Register::RA },
            Instruction::Ecall,
            Instruction::Addi { rd: Register::A0, rs1: Register::A0, imm: 10 },
            Instruction::Jalr { rd: Register::ZERO, rs1: Register::RA, imm: 0 },
        ])
        .unwrap();
    assert_eq!(execute(&program), Ok(15 + 0x1008));
}

// ============================================================================
// Properties of compiled programs
// ============================================================================

#[test]
fn test_branch_lands_on_target_code() {
    let instructions = vec![
        Instruction::Addi { rd: Register::A0, rs1: Register::ZERO, imm: 5 },
        Instruction::Addi { rd: Register::A1, rs1: Register::ZERO, imm: 5 },
        Instruction::Beq { rs1: Register::A0, rs2: Register::A1, imm: 8 },
        Instruction::Addi { rd: Register::A0, rs1: Register::ZERO, imm: 0 },
        Instruction::Ecall,
    ];
    let program = compile(&instructions).unwrap();
    // Prologue 3, each ADDI 6, the BEQ 9: its jump is at 23, the ECALL starts at 30.
    let jump = program.instructions[23];
    assert_eq!(jump.opcode, opcodes::JMP_REG | opcodes::JEQ);
    assert_eq!(23 + 1 + jump.offset as i64, 30);
    assert_eq!(program.instructions[30], SvmInstruction::mov64_imm(SvmRegister::R8, 0x8028));
}

#[test]
fn test_compiled_code_uses_temporaries() {
    let instructions = vec![
        Instruction::Addi { rd: Register::A0, rs1: Register::ZERO, imm: 5 },
        Instruction::Jal { rd: Register::RA, imm: 12 },
        Instruction::Div { rd: Register::A0, rs1: Register::A0, rs2: Register::A1 },
        Instruction::Ecall,
        Instruction::Rem { rd: Register::A0, rs1: Register::A0, rs2: Register::A0 },
        Instruction::Jalr { rd: Register::ZERO, rs1: Register::RA, imm: 0 },
    ];
    let program = compile(&instructions).unwrap();
    for inst in &program.instructions {
        assert!(inst.dst <= 9 && inst.src <= 9, "{:?}", inst);
    }
}

#[test]
fn test_compiled_program_shape() {
    let instructions = vec![Instruction::Addi { rd: Register::A0, rs1: Register::ZERO, imm: 42 }];
    let program = compile(&instructions).unwrap();
    let n = program.len();
    assert_eq!(n, 3 + 6 + 5);
    assert_eq!(program.instructions[0], SvmInstruction::mov64_imm(SvmRegister::R9, 0x10000));
    assert_eq!(program.instructions[1], SvmInstruction::mov64_imm(SvmRegister::R1, 0x8008));
    assert_eq!(program.instructions[2], SvmInstruction::st(MemorySize::Word, SvmRegister::R1, 0, 0x10000));
    assert_eq!(program.instructions[n - 5], SvmInstruction::mov64_imm(SvmRegister::R8, 0x8028));
    assert_eq!(program.instructions[n - 1], SvmInstruction::exit());
    assert_eq!(execute(&program).unwrap(), 42);
}

#[test]
fn test_compute_cost_sums_estimates() {
    let mut program = SvmProgram::new();
    program.push(SvmInstruction::mov64_imm(SvmRegister::R0, 6));
    program.push(SvmInstruction::mul64_imm(SvmRegister::R0, 7));
    program.push(SvmInstruction::div64_imm(SvmRegister::R0, 2));
    program.push(SvmInstruction::call(1));
    program.push(SvmInstruction::exit());
    assert_eq!(program.compute_cost(), 1 + 10 + 25 + 100 + 1);
}

// ============================================================================
// Interpreter errors and what a run keeps
// ============================================================================

#[test]
fn test_lddw_loads_full_immediate() {
    let mut program = SvmProgram::new();
    program.extend(SvmInstruction::lddw(SvmRegister::R0, 0x1_0000_0002).to_vec());
    program.push(SvmInstruction::exit());
    let mut vm = SvmVm::new(4096);
    assert_eq!(vm.execute(&program), Ok(0x1_0000_0002));
}

#[test]
fn test_lddw_in_last_slot_loads_low_half() {
    let pair = SvmInstruction::lddw(SvmRegister::R0, 7);
    assert_eq!(run_svm(vec![pair[0]]), Ok(7));
}

#[test]
fn test_svm_read_mem_past_address_space() {
    let vm = SvmVm::new(64);
    assert_eq!(vm.read_mem(u64::MAX - 1, MemorySize::Word), Err(SvmError::MemoryOutOfBounds(u64::MAX - 1)));
    assert_eq!(vm.read_mem(60, MemorySize::Word), Ok(0));
    assert_eq!(vm.read_mem(61, MemorySize::Word), Err(SvmError::MemoryOutOfBounds(61)));
}

#[test]
fn test_svm_division_by_zero() {
    let result = run_svm(vec![
        SvmInstruction::mov64_imm(SvmRegister::R0, 1),
        SvmInstruction::mov64_imm(SvmRegister::R1, 0),
        SvmInstruction::div64_reg(SvmRegister::R0, SvmRegister::R1),
        SvmInstruction::exit(),
    ]);
    assert_eq!(result, Err(SvmError::DivisionByZero));
}

#[test]
fn test_svm_invalid_opcode() {
    let result = run_svm(vec![SvmInstruction::new(0x01, 0, 0, 0, 0), SvmInstruction::exit()]);
    assert_eq!(result, Err(SvmError::InvalidOpcode(0x01)));
}

#[test]
fn test_svm_memory_out_of_bounds() {
    let result = run_svm(vec![
        SvmInstruction::mov64_imm(SvmRegister::R1, 5000),
        SvmInstruction::ldx(MemorySize::Word, SvmRegister::R0, SvmRegister::R1, 0),
        SvmInstruction::exit(),
    ]);
    assert_eq!(result, Err(SvmError::MemoryOutOfBounds(5000)));
}

#[test]
fn test_svm_compute_budget_exceeded() {
    let mut program = SvmProgram::new();
    program.push(SvmInstruction::ja(-1));
    let mut vm = SvmVm::new(4096);
    vm.set_compute_limit(10);
    assert_eq!(vm.execute(&program), Err(SvmError::ComputeBudgetExceeded(11, 10)));
}

#[test]
fn test_svm_syscall_not_implemented() {
    let result = run_svm(vec![SvmInstruction::call(7), SvmInstruction::exit()]);
    assert_eq!(result, Err(SvmError::SyscallNotImplemented(7)));
}

#[test]
fn test_svm_write_to_r10() {
    let result = run_svm(vec![SvmInstruction::mov64_imm(SvmRegister::R10, 1), SvmInstruction::exit()]);
    assert_eq!(result, Err(SvmError::WriteToR10));
}

#[test]
fn test_svm_signed_division_overflow_cannot_go_on() {
    let mut program = SvmProgram::new();
    program.push(SvmInstruction::mov64_imm(SvmRegister::R0, 1));
    program.push(SvmInstruction::lsh64_imm(SvmRegister::R0, 63));
    program.push(SvmInstruction::mov64_imm(SvmRegister::R1, -1));
    program.push(SvmInstruction::sdiv64_reg(SvmRegister::R0, SvmRegister::R1));
    program.push(SvmInstruction::exit());
    assert_eq!(execute_checked(&program), None);
}

#[test]
fn test_run_keeps_frame_pointer() {
    let mut program = SvmProgram::new();
    program.push(SvmInstruction::mov64_imm(SvmRegister::R1, 100));
    program.push(SvmInstruction::st(MemorySize::DWord, SvmRegister::R1, 8, -2));
    program.push(SvmInstruction::ldx(MemorySize::Half, SvmRegister::R0, SvmRegister::R1, 8));
    program.push(SvmInstruction::exit());
    let mut vm = SvmVm::new(4096);
    assert_eq!(vm.execute(&program), Ok(0xfffe));
    assert_eq!(vm.registers[10], 4096);
    assert_eq!(vm.memory.len(), 4096);
    assert_eq!(&vm.memory[108..116], &[0xfe, 0xff, 0xff, 0xff, 0xff, 0xff, 0xff, 0xff]);
    assert_eq!(vm.compute_units, 1 + 5 + 5 + 1);
}

// ============================================================================
// Encoding
// ============================================================================

#[test]
fn test_decode_encode_roundtrip() {
    for inst in [
        SvmInstruction::exit(),
        SvmInstruction::ja(-7),
        SvmInstruction::jmp_imm(opcodes::JNE, SvmRegister::R1, 0x1234, 2),
        SvmInstruction::stx(MemorySize::Half, SvmRegister::R8, SvmRegister::R2, -4),
        SvmInstruction::mov64_imm(SvmRegister::R3, i32::MIN),
    ] {
        assert_eq!(SvmInstruction::decode(&inst.encode()), inst);
    }
    let bytes = [0x61, 0x21, 0x34, 0x12, 0x78, 0x56, 0x34, 0x12];
    assert_eq!(SvmInstruction::decode(&bytes).encode(), bytes);
}

#[test]
fn test_program_encoding_bytes() {
    let mut prog = SvmProgram::new();
    prog.push(SvmInstruction::mov64_imm(SvmRegister::R0, 42));
    prog.push(SvmInstruction::exit());
    assert_eq!(prog.encode(), vec![0xb7, 0x00, 0, 0, 42, 0, 0, 0, 0x95, 0, 0, 0, 0, 0, 0, 0]);
}

#[test]
fn test_words_from_le_bytes() {
    let bytes = [0x13, 0x05, 0xa0, 0x02, 0x73, 0x00, 0x00, 0x00];
    assert_eq!(words_from_le_bytes(&bytes), Some(vec![0x02a00513, 0x00000073]));
    assert_eq!(words_from_le_bytes(&bytes[..5]), None);
    assert_eq!(words_from_le_bytes(&[]), Some(vec![]));
}

// ============================================================================
// Text forms
// ============================================================================

#[test]
fn test_instruction_text() {
    assert_eq!(decode(0x02a00513).to_text(), "addi a0, zero, 42");
    assert_eq!(decode(0x003100b3).to_text(), "add ra, sp, gp");
    assert_eq!(Instruction::Lw { rd: Register::A0, rs1: Register::A1, imm: 8 }.to_text(), "lw a0, 8(a1)");
    assert_eq!(Instruction::Sw { rs1: Register::SP, rs2: Register::S2, imm: -4 }.to_text(), "sw s2, -4(sp)");
    assert_eq!(Instruction::Beq { rs1: Register::T6, rs2: Register::ZERO, imm: -8 }.to_text(), "beq t6, zero, -8");
    assert_eq!(Instruction::Unknown(0).to_text(), ".word 0x00000000");
    assert_eq!(Register::new(27).name(), "s11");
    assert_eq!(Register::new(28).name(), "t3");
}

#[test]
fn test_svm_instruction_text() {
    assert_eq!(SvmInstruction::mov64_imm(SvmRegister::R0, 42).to_text(), "mov64 r0, 42");
    assert_eq!(SvmInstruction::exit().to_text(), "exit");
    assert_eq!(SvmInstruction::ja(3).to_text(), "ja +3");
    assert_eq!(SvmInstruction::jmp_imm(opcodes::JNE, SvmRegister::R1, 0, -1).to_text(), "jne r1, 0, -1");
    assert_eq!(SvmInstruction::call(5).to_text(), "call 5");
    assert_eq!(
        SvmInstruction::ldx(MemorySize::Word, SvmRegister::R0, SvmRegister::R1, 0).to_text(),
        "op=0x61 dst=0 src=1 off=0 imm=0"
    );
    assert_eq!(SvmRegister::R7.to_text(), "r7");
}
