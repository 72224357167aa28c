//! A verified emulator for a 16-bit von-Neumann machine in the LC-3 family:
//! a register file, a flat word-addressed memory with memory-mapped keyboard
//! registers, a fetch-decode-execute interpreter over a 16-opcode instruction
//! set with a trap-vector table for I/O services, and a disassembler that
//! decodes the identical bit layout.
//!
//! The interpreter itself performs no I/O: each cycle takes the pending input
//! byte (if any) as a value and appends any characters the cycle emits to an
//! output buffer, so a host loop can connect it to real streams.

pub mod bits;
pub mod disasm;
pub mod text;
pub mod vm;
