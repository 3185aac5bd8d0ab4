//! rv32im to SVM compiler

pub mod control_flow;
pub mod execution;
pub mod programs;
pub mod registers;
pub mod templates;
pub mod translator;

pub use translator::{Compiler, CompilerConfig, CompilerError, CompilerResult};
