//! An interpreter core for the CHIP-8 virtual machine: the machine state, the
//! fetch-decode-execute cycle and the meaning of every instruction, each with
//! a contract over a mathematical model of the machine.

pub mod arith;
pub mod chip8;
pub mod decode;
pub mod display;
pub mod entropy;
pub mod errors;
pub mod families;
pub mod frontend;
pub mod laws;
pub mod semantics;
pub mod state;

pub use chip8::Chip8;
pub use errors::{Fault, ProgramTooLargeError};
pub use state::{
    GRAPHICS_ARRAY_SIZE, GRAPHICS_COLUMNS, GRAPHICS_ROWS, LOWER_MEMORY_BOUNDARY, MEMORY_SIZE,
};
