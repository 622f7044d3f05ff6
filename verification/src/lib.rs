//! A CHIP-8 interpreter core: memory, registers, timers, keypad and a
//! monochrome frame buffer, driven one instruction at a time, together with
//! the decisions a desktop front end makes (speed, key layout, pixel layout).
//!
//! The machine is modelled by [`machine::EmuState`]; every operation of
//! [`emu::Emu`] is specified against that model, and [`laws`] states what
//! holds across instructions and cycles.

pub mod instruction;
pub mod machine;
pub mod emu;
pub mod frontend;
pub mod laws;
pub mod text;
mod rng;

pub use emu::Emu;
pub use frontend::{
    game_speed, key2button, lit_cells, speed_for_name, SCALE, WINDOW_HEIGHT, WINDOW_WIDTH,
};
pub use instruction::{decode, Instruction};
pub use machine::{Fault, SCREEN_HEIGHT, SCREEN_WIDTH};
