//! A virtual machine for the CHIP-8 instruction set: sixteen 8-bit registers,
//! a 16-bit index register, 4K of memory, a call stack, two timers, a 64x32
//! monochrome framebuffer and a 16-key keypad.
//!
//! Every operation carries a contract over a mathematical model of the
//! machine; the host supplies key states and presents frames.

pub mod cpu;
pub mod decoder;
pub mod display;
pub mod emulator;
pub mod emustate;
pub mod fault;
pub mod font;
pub mod input;
pub mod laws;
pub mod machine;
pub mod memory;
pub mod util;
