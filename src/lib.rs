//! A CHIP-8 virtual machine whose instruction semantics are proved against
//! an abstract model of the machine state.

pub mod quirks;
pub mod parser;
pub mod opcode;
pub mod state;
pub mod alu;
pub mod display;
pub mod keypad;
pub mod handlers;
pub mod chip;
