//! A translator from the stack-oriented VM language to assembly for a 16-bit
//! machine with two registers.
//!
//! `parser` reads VM text into `instructions`; `compiler` turns instructions
//! into `assembly`, which is text only at the very end; `program` puts the
//! units of a program together behind one bootstrap. `machine` is a model of
//! the target machine; the `*_laws` modules prove what the emitted assembly
//! does on it, and that the labels it makes up never collide.

pub mod assembly;
pub mod comparison_laws;
pub mod compiler;
pub mod error;
pub mod execution;
pub mod frame_laws;
pub mod instructions;
pub mod label_laws;
pub mod ledger;
pub mod machine;
pub mod parser;
pub mod program;
pub mod stack_laws;
pub mod text;
