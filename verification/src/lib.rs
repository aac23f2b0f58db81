//! A small register-based virtual machine and its assembler.
//!
//! The assembler turns assembly text (labels, directives, up to three
//! operands per instruction) into a fixed-width bytecode image behind a
//! 64-byte header; the machine interprets that image with a fetch-decode-
//! execute loop over 32 signed registers, a growable heap, a comparison
//! flag and a remainder word.

pub mod assembler;
pub mod instruction;
pub mod parser;
pub mod repl;
pub mod symbols;
pub mod tokens;
pub mod vm;
