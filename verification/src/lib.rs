//! An interpreter for the CHIP-8 instruction set, with its behaviour stated
//! over a mathematical model of the machine and proved.

pub mod emu;
pub mod keypad;
pub mod laws;
pub mod machine;
mod rng;
pub mod semantics;
pub mod sprite;

pub use emu::Emu;
pub use keypad::key2btn;
pub use machine::{Fault, Machine, SCREEN_HEIGHT, SCREEN_WIDTH};
