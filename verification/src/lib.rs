//! A CHIP-8 interpreter core: the machine state, instruction decoding and
//! execution, keypad mapping and frame rendering, each with its contract.
pub mod model;
pub mod cpu;
pub mod display;
pub mod keyboard;
pub mod laws;
pub mod opcode_laws;
