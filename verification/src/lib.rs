pub mod chip8;
pub mod cpu;
pub mod display;
pub mod font;
pub mod instruction;
pub mod keypad;
pub mod laws;
pub mod ram;
mod random;
pub mod semantics;
pub mod state;
