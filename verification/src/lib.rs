//! A verified CHIP-8 style virtual machine: a fetch-decode-execute
//! interpreter over an 8-bit machine with 4096 bytes of memory, sixteen
//! 8-bit registers, a bounded call stack, two countdown timers, a 64x32
//! one-bit display, and a 16-key keypad.
//!
//! The machine state is modelled by the ghost [`cpu::CpuView`]; every step
//! of the interpreter is pinned to the mathematical transition function
//! [`step::step_spec`].

pub mod cpu;
pub mod draw;
pub mod isa;
pub mod laws;
pub mod step;
