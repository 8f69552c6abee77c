//! A CHIP-8 CPU core: a fetch-decode-execute machine over a fixed memory
//! image, a register file of sixteen bytes and a bounded call stack.
pub mod decode;
pub mod cpu;
pub mod progress;
pub mod theorems;
