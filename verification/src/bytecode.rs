//! The bytecode implementation: a one-pass compiler of expressions to a
//! chunk of instructions, and a stack machine that runs the chunk.

pub mod chunk;
pub mod compiler;
pub mod correct;
pub mod vm;
