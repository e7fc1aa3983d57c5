//! An interpreter for a small 8-bit virtual machine: 4 KiB of memory,
//! sixteen byte registers, a call stack, a 64x32 monochrome framebuffer,
//! a sixteen-key keypad and two countdown timers.
//!
//! `state` holds the mathematical model of the machine and the meaning of
//! every instruction; `emu` holds the executable machine, whose operations
//! are proved to follow that model; `laws` states and proves properties of
//! the instruction set over the model.

pub mod state;
pub mod emu;
pub mod draw;
pub mod laws;
