//! An instruction-set emulator for a 16-bit teaching architecture: a
//! 16-opcode instruction set, eight general-purpose registers plus program
//! counter and condition flags, a 65,536-word memory with two memory-mapped
//! keyboard registers, and a six-entry trap table for character I/O.
//!
//! The library holds the verified core: register file, memory with its
//! mapped-I/O read path, instruction decoding, and the execution engine's
//! single-step transition. Actual terminal I/O (polling the keyboard,
//! blocking reads, writing output bytes) is left to the embedding program,
//! which drives the engine step by step.

pub mod cpu;
pub mod flag;
pub mod memory;
pub mod opcode;
pub mod register;
pub mod trap;
pub mod utils;
