//! Host-side logic for running a program on a Cortex-M target: building the
//! image to load from the sections of an ELF file, planning the load,
//! monitoring the run, and unwinding the halted target's call stack.

pub mod cfi;
pub mod elf;
pub mod image;
pub mod loader;
pub mod monitor;
pub mod registers;
pub mod render;
pub mod symbols;
pub mod text;
pub mod unwind;
pub mod words;
