//! An interpreter for the CHIP-8 virtual machine: decoding of the two-byte
//! instructions, their effect on the machine state, and the per-frame driver.

mod draw;
mod error;
mod instruction;
pub mod laws;
mod machine;
mod rng;
pub mod sprite;
pub mod state;

pub use error::{Chip8Error, FrontError};
pub use instruction::{decode, decode_spec, Instruction};
pub use sprite::{DISPLAY_HEIGHT, DISPLAY_SIZE, DISPLAY_WIDTH};
pub use machine::{font_glyphs, Chip8};
pub use state::{MachineState, MEMORY_SIZE, PROGRAM_START, REGISTERS, FRAME_DURATION};
