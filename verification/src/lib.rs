//! A CHIP-8 interpreter core: instruction decoding, the machine state and its
//! execution semantics, the frame buffer, the host-event state machine that
//! drives the interpreter, and command-line configuration parsing.

pub mod instructions;
pub mod display;
pub mod machine;
pub mod system;
pub mod events;
pub mod config;
pub mod laws;
pub mod opcode_laws;
