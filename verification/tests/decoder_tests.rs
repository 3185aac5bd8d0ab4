//! Decoding of rv32im instruction words.

use rv32im_svm::{decode, Instruction, Register};

#[test]
fn test_decode_add() {
    // add x1, x2, x3
    let word = 0x003100b3;
    let inst = decode(word);
    assert_eq!(inst, Instruction::Add {
        rd: Register::new(1),
        rs1: Register::new(2),
        rs2: Register::new(3),
    });
}

#[test]
fn test_decode_addi() {
    // addi x1, x2, 10
    let word = 0x00a10093;
    let inst = decode(word);
    assert_eq!(inst, Instruction::Addi {
        rd: Register::new(1),
        rs1: Register::new(2),
        imm: 10,
    });
}

#[test]
fn test_decode_negative_imm() {
    // addi x1, x0, -1
    let word = 0xfff00093;
    let inst = decode(word);
    assert_eq!(inst, Instruction::Addi {
        rd: Register::new(1),
        rs1: Register::new(0),
        imm: -1,
    });
}

#[test]
fn test_decode_lui() {
    // lui x1, 0x12345
    let word = 0x123450b7;
    let inst = decode(word);
    assert_eq!(inst, Instruction::Lui {
        rd: Register::new(1),
        imm: 0x12345000_u32 as i32,
    });
}

#[test]
fn test_decode_jal() {
    // jal x1, 0 (encoded)
    let word = 0x000000ef;
    let inst = decode(word);
    assert_eq!(inst, Instruction::Jal {
        rd: Register::new(1),
        imm: 0,
    });
}

#[test]
fn test_decode_beq() {
    // beq x1, x2, 8
    let word = 0x00208463;
    let inst = decode(word);
    assert_eq!(inst, Instruction::Beq {
        rs1: Register::new(1),
        rs2: Register::new(2),
        imm: 8,
    });
}

#[test]
fn test_decode_mul() {
    // mul x1, x2, x3
    let word = 0x023100b3;
    let inst = decode(word);
    assert_eq!(inst, Instruction::Mul {
        rd: Register::new(1),
        rs1: Register::new(2),
        rs2: Register::new(3),
    });
}
