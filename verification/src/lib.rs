//! A CHIP-8 virtual machine: an instruction decoder, an execution engine,
//! and the machine-state container they operate on, with verified
//! bit-level semantics for every recognized instruction.

pub mod opcodes;
pub mod machine;
pub mod engine;
pub mod laws;
