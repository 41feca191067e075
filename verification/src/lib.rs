//! A two-pass assembler for Roboto, a small line-oriented language that
//! scripts autonomous agents.
//!
//! The first pass binds each label to the index of the instruction that
//! follows it (`symbols`). The second reads each instruction line, resolves
//! its jump operands to absolute indices, and writes the instruction back in
//! canonical text (`desugar`, `instruction`). `text` and `number` hold how a
//! line falls into tokens and how numbers are read and written; `error`
//! holds the failures. `config` and `roboto_code_generator` produce the
//! program text that a configuration asks for.

pub mod text;
pub mod number;
pub mod instruction;
pub mod error;
pub mod symbols;
pub mod desugar;
pub mod config;
pub mod roboto_code_generator;
