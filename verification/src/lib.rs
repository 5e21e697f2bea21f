//! A CHIP-8 interpreter core: memory, registers, the fetch-decode-execute
//! cycle and the key-wait state machine, with contracts that Verus proves.

pub mod display;
pub mod error;
pub mod memory;
pub mod model;
pub mod opcode;
pub mod chip8;
pub mod laws;
