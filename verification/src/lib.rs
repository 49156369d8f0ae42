//! Code-generation back end of a small stack-machine compiler: translates a
//! sequence of push/pop/arithmetic instructions into textual assembly for a
//! register-based target, with a fixed memory layout and two scratch registers.

pub mod ast;
pub mod codegen;
pub mod text;
