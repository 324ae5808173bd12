//! A verified CHIP-8 interpreter core: memory, registers, call stack, timers
//! and a monochrome framebuffer, driven by a host through single-step
//! execution and timer calls, with the instruction semantics given as a
//! specification-level step function.

pub mod cpu;
pub mod laws;
pub mod state;
