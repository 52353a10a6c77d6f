//! Decoder and simulator for a subset of the 8086 instruction set: the forms of `mov`,
//! `add`, `sub` and `cmp` between registers, memory and immediates, and the short
//! conditional jumps and loops.
//!
//! - `bits` classifies first bytes by the opcode table, extracts the bit fields of the
//!   first two bytes and gives the length of an instruction.
//! - `decode` turns the bytes at a cursor into a `DecodedInstruction`.
//! - `registers` holds the value model and the register file, `memory` the byte-addressed
//!   memory, `flag_registers` the zero and sign flags.
//! - `execute` applies a decoded instruction to that state and moves the instruction
//!   pointer.
//! - `format` renders an instruction as assembly text.
//! - `text` holds the string helpers, `errors` the error types, `operation` the forms of
//!   operation.

pub mod errors;
pub mod text;
pub mod bits;
pub mod operation;
pub mod registers;
pub mod flag_registers;
pub mod memory;
pub mod decode;
pub mod format;
pub mod execute;
