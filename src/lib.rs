//! Execution core of a CHIP-8 virtual machine: memory, registers, call
//! stack, timers, keypad latches and a monochrome framebuffer, driven one
//! instruction at a time by an outside loop.

pub mod instr;
pub mod model;
pub mod draw;
pub mod emu;
pub mod laws;
