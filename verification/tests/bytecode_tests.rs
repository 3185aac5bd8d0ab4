//! sBPF instruction constructors and encoding.

use rv32im_svm::svm::{opcodes, SvmInstruction, SvmProgram, SvmRegister};

#[test]
fn test_instruction_encode_decode() {
    let inst = SvmInstruction::add64_imm(SvmRegister::R1, 42);
    let bytes = inst.encode();
    let decoded = SvmInstruction::decode(&bytes);
    assert_eq!(inst, decoded);
}

#[test]
fn test_mov_imm() {
    let inst = SvmInstruction::mov64_imm(SvmRegister::R0, 100);
    assert_eq!(inst.opcode, opcodes::ALU64_IMM | opcodes::MOV);
    assert_eq!(inst.dst, 0);
    assert_eq!(inst.imm, 100);
}

#[test]
fn test_program_encode() {
    let mut prog = SvmProgram::new();
    prog.push(SvmInstruction::mov64_imm(SvmRegister::R0, 42));
    prog.push(SvmInstruction::exit());

    let bytes = prog.encode();
    assert_eq!(bytes.len(), 16);
}
