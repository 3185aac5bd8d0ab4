# rv32im_svm

A compiler from RISC-V rv32im machine code to Solana sBPF bytecode, with an
interpreter that runs the bytecode, written in Verus and proved against its
contracts.

- `src/riscv`: the instruction set (`Instruction`, `Register`) and the decoder
  from 32-bit words.
- `src/svm`: the bytecode (`SvmInstruction`, its 8-byte encoding), the machine's
  semantics as spec functions, and the interpreter `SvmVm`, proved to follow them.
- `src/compiler`: the compiler. `templates` states the code each instruction gets
  and what compiling a program gives; `translator` builds it; `control_flow`,
  `registers`, `execution` and `programs` hold the laws: where every jump lands,
  which registers the code uses, what running each instruction's code does to the
  RISC-V registers kept in memory, and that a compiled program returns what RISC-V
  computes.
- `src/text.rs`: the text forms of instructions.
- `app/`: the command-line program (file reading, logging, error messages).
- `tests/`: the tests.
