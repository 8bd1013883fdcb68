//! A CHIP-8 virtual machine: machine state, decoder, executor, sprite blitter
//! and driver, with their contracts and the laws of the instruction set
//! proved.

pub mod display;
pub mod driver;
mod entropy;
pub mod execute;
pub mod fault;
pub mod instruction;
pub mod keypad;
pub mod laws;
pub mod machine;
