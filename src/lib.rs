//! An emulator of the MIPS32 instruction set for teaching: a lexer, parser and
//! assembler for MIPS source text, a paged big-endian memory with
//! memory-mapped devices, and an interpreter over a 32-register file.
//!
//! Jumps and branches take effect at once: branch delay slots are not
//! modelled. Writes to `$zero` take effect like writes to any register.

pub mod assembler;
pub mod cpu;
pub mod instruction;
pub mod instruction_set;
pub mod lexer;
pub mod memory;
pub mod mmio;
pub mod parser;
pub mod program;
pub mod text;
