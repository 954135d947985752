//! A CHIP-8 virtual machine: memory and register model, instruction
//! decoding, per-instruction semantics and the fixed-rate timing loop.
pub mod hardware;
pub mod interface;
pub mod program_handler;
